//! Composable text style attributes and styled runs, the atoms of a
//! rendered line.

use vstd::prelude::*;

verus! {

/// A composed set of text attributes. Attributes combine freely; the
/// default value has every attribute switched off.
#[derive(Clone, Copy, Debug, PartialEq, Eq, Structural)]
pub struct Style {
    pub bold: bool,
    pub italic: bool,
    pub underline: bool,
    pub dim: bool,
    pub strikethrough: bool,
}

impl Style {
    /// The plain style: no attribute set.
    pub fn plain() -> (s: Style)
        ensures
            s == Style::plain_spec(),
    {
        Style { bold: false, italic: false, underline: false, dim: false, strikethrough: false }
    }

    pub open spec fn plain_spec() -> Style {
        Style { bold: false, italic: false, underline: false, dim: false, strikethrough: false }
    }

    /// The same style with bold switched on.
    pub fn with_bold(self) -> (s: Style)
        ensures
            s == (Style { bold: true, ..self }),
    {
        Style { bold: true, ..self }
    }

    /// The same style with italic switched on.
    pub fn with_italic(self) -> (s: Style)
        ensures
            s == (Style { italic: true, ..self }),
    {
        Style { italic: true, ..self }
    }

    /// The same style with underline switched on.
    pub fn with_underline(self) -> (s: Style)
        ensures
            s == (Style { underline: true, ..self }),
    {
        Style { underline: true, ..self }
    }

    /// The same style with dim switched on.
    pub fn with_dim(self) -> (s: Style)
        ensures
            s == (Style { dim: true, ..self }),
    {
        Style { dim: true, ..self }
    }

    /// The same style with strikethrough switched on.
    pub fn with_strikethrough(self) -> (s: Style)
        ensures
            s == (Style { strikethrough: true, ..self }),
    {
        Style { strikethrough: true, ..self }
    }
}

impl Default for Style {
    /// The default style is the plain style.
    fn default() -> (s: Style)
        ensures
            s == Style::plain_spec(),
    {
        Style::plain()
    }
}

/// A contiguous piece of text sharing one composed style.
#[derive(Clone, Debug)]
pub struct StyledRun {
    pub text: String,
    pub style: Style,
}

/// The mathematical model of a styled run: its character sequence and
/// its style.
pub ghost struct Run {
    pub text: Seq<char>,
    pub style: Style,
}

impl View for StyledRun {
    type V = Run;

    open spec fn view(&self) -> Run {
        Run { text: self.text@, style: self.style }
    }
}

/// One display line: an ordered sequence of styled runs. A line with no
/// runs renders as a blank row.
#[derive(Clone, Debug)]
pub struct RenderLine {
    pub runs: Vec<StyledRun>,
}

/// The model of a sequence of styled runs.
pub open spec fn runs_view(v: Seq<StyledRun>) -> Seq<Run> {
    v.map_values(|r: StyledRun| r@)
}

impl View for RenderLine {
    type V = Seq<Run>;

    open spec fn view(&self) -> Seq<Run> {
        runs_view(self.runs@)
    }
}

/// The model of a sequence of display lines.
pub open spec fn lines_view(v: Seq<RenderLine>) -> Seq<Seq<Run>> {
    v.map_values(|l: RenderLine| l@)
}

} // verus!
