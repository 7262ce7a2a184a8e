//! The mathematical model of the renderer: a state, a transition
//! function over document events, and the finishing pass that packages
//! the output. The executable renderer is proved to follow this model
//! step by step.

use vstd::prelude::*;
use crate::events::MdEvent;
use crate::events::MdTag;
use crate::events::MdTagEnd;
use crate::html_img::HtmlImageModel;
use crate::html_img::html_images;
use crate::style::Run;
use crate::style::Style;
use crate::text::dec_str;
use crate::text::find_char;
use crate::text::rep_char;
use crate::text::trim_spec;

verus! {

/// One active list context: an ordered list carrying the number of its
/// next item, or an unordered list.
#[derive(Clone, Copy, Debug, PartialEq, Eq, Structural)]
pub enum ListKind {
    Ordered(u64),
    Unordered,
}

/// The model of one recorded image reference.
pub ghost struct ImgRef {
    pub src: Seq<char>,
    pub line_index: int,
}

/// The model of the finished output: the display lines and the image
/// references anchored into them.
#[verifier::ext_equal]
pub ghost struct DocModel {
    pub lines: Seq<Seq<Run>>,
    pub images: Seq<ImgRef>,
}

/// The renderer state: emitted lines and images, the line under
/// construction, the style stack, the list stack, the code-block flag,
/// the block-quote depth, a pending link destination, and the image
/// capture sub-state (destination and accumulated alt text).
#[verifier::ext_equal]
pub ghost struct RState {
    pub lines: Seq<Seq<Run>>,
    pub images: Seq<ImgRef>,
    pub cur: Seq<Run>,
    pub styles: Seq<Style>,
    pub lists: Seq<ListKind>,
    pub in_code: bool,
    pub quote_depth: nat,
    pub pending_link: Option<Seq<char>>,
    pub pending_image: Option<(Seq<char>, Seq<char>)>,
}

pub open spec fn plain() -> Style {
    Style::plain_spec()
}

pub open spec fn dim() -> Style {
    Style { dim: true, ..plain() }
}

/// The style new text is written in: the top of the style stack, or
/// the plain style should the stack ever be empty.
pub open spec fn cur_style(s: RState) -> Style {
    if s.styles.len() > 0 {
        s.styles.last()
    } else {
        plain()
    }
}

/// The state before any event: no output, the base style as the stack
/// bottom, no list, no quote, no capture.
pub open spec fn init_state() -> RState {
    RState {
        lines: Seq::empty(),
        images: Seq::empty(),
        cur: Seq::empty(),
        styles: seq![plain()],
        lists: Seq::empty(),
        in_code: false,
        quote_depth: 0,
        pending_link: None,
        pending_image: None,
    }
}

/// Completes the line under construction: it is appended to the output
/// (a blank row when empty) and the buffer is cleared.
pub open spec fn flush(s: RState) -> RState {
    RState { lines: s.lines.push(s.cur), cur: Seq::empty(), ..s }
}

/// Appends one blank row.
pub open spec fn push_blank(s: RState) -> RState {
    RState { lines: s.lines.push(Seq::empty()), ..s }
}

/// The blank separator: flushes pending content, then appends a blank
/// row unless the output already ends in one.
pub open spec fn blank_sep(s: RState) -> RState {
    let s1 = if s.cur.len() > 0 {
        flush(s)
    } else {
        s
    };
    if s1.lines.len() == 0 || s1.lines.last().len() > 0 {
        push_blank(s1)
    } else {
        s1
    }
}

/// Appends one styled run to the line under construction.
pub open spec fn push_run(s: RState, text: Seq<char>, style: Style) -> RState {
    RState { cur: s.cur.push(Run { text, style }), ..s }
}

/// The quote prefix at depth `d >= 1`: a two-space indent per enclosing
/// level, then a bar and a space.
pub open spec fn quote_prefix(d: nat) -> Seq<char> {
    rep_char(' ', (2 * (d - 1)) as nat) + "│ "@
}

/// Seeds the empty line buffer with the dim quote prefix when inside a
/// block quote.
pub open spec fn seed_quote(s: RState) -> RState {
    if s.cur.len() == 0 && s.quote_depth > 0 {
        push_run(s, quote_prefix(s.quote_depth), dim())
    } else {
        s
    }
}

/// The style of a heading: level 1 bold and underlined, level 2 bold,
/// levels 3 and 4 bold italic, deeper levels italic.
pub open spec fn heading_style(level: u8) -> Style {
    if level == 1 {
        Style { bold: true, underline: true, ..plain() }
    } else if level == 2 {
        Style { bold: true, ..plain() }
    } else if level == 3 || level == 4 {
        Style { bold: true, italic: true, ..plain() }
    } else {
        Style { italic: true, ..plain() }
    }
}

/// The list indentation: two spaces per nesting level beyond the
/// first.
pub open spec fn indent_of(lists: Seq<ListKind>) -> Seq<char> {
    if lists.len() == 0 {
        Seq::empty()
    } else {
        rep_char(' ', (2 * (lists.len() - 1)) as nat)
    }
}

/// The marker of the next list item: the counter of the innermost
/// ordered list followed by a dot, or a bullet.
pub open spec fn marker_of(lists: Seq<ListKind>) -> Seq<char> {
    if lists.len() == 0 {
        "• "@
    } else {
        match lists.last() {
            ListKind::Ordered(n) => dec_str(n as nat) + ". "@,
            ListKind::Unordered => "• "@,
        }
    }
}

/// A counter increment that stops at the largest representable value.
pub open spec fn sat_inc(n: u64) -> u64 {
    if n < u64::MAX {
        (n + 1) as u64
    } else {
        n
    }
}

/// Advances the counter of the innermost ordered list.
pub open spec fn bump_top(lists: Seq<ListKind>) -> Seq<ListKind> {
    if lists.len() == 0 {
        lists
    } else {
        match lists.last() {
            ListKind::Ordered(n) => lists.update(lists.len() - 1, ListKind::Ordered(sat_inc(n))),
            ListKind::Unordered => lists,
        }
    }
}

/// A list item opens: pending content is flushed, and a fresh line is
/// seeded with the indent and the marker; an ordered counter advances.
pub open spec fn item_step(s: RState) -> RState {
    let s1 = if s.cur.len() > 0 {
        flush(s)
    } else {
        s
    };
    let s2 = RState {
        cur: seq![Run { text: indent_of(s1.lists) + marker_of(s1.lists), style: plain() }],
        ..s1
    };
    RState { lists: bump_top(s2.lists), ..s2 }
}

/// The runs of an image caption line: a dim bold `[image] ` head, then
/// the trimmed alt text with a dim ` (src)` suffix, or the underlined
/// source when the alt text is empty.
pub open spec fn caption_runs(src: Seq<char>, alt_trimmed: Seq<char>) -> Seq<Run> {
    let head = Run { text: "[image] "@, style: Style { dim: true, bold: true, ..plain() } };
    if alt_trimmed.len() == 0 {
        seq![head, Run { text: src, style: Style { underline: true, ..plain() } }]
    } else {
        seq![
            head,
            Run { text: alt_trimmed, style: plain() },
            Run { text: " ("@ + src + ")"@, style: dim() },
        ]
    }
}

/// Appends one image caption line and records the reference to it; a
/// blank row follows when `trailing` is set.
pub open spec fn append_image(s: RState, src: Seq<char>, alt_raw: Seq<char>, trailing: bool) -> RState {
    let alt = trim_spec(alt_raw);
    let idx = s.lines.len() as int;
    let lines1 = s.lines.push(caption_runs(src, alt));
    let lines2 = if trailing {
        lines1.push(Seq::empty())
    } else {
        lines1
    };
    RState { lines: lines2, images: s.images.push(ImgRef { src, line_index: idx }), ..s }
}

/// Appends a caption for each extracted image, in order.
pub open spec fn append_images_list(s: RState, imgs: Seq<HtmlImageModel>) -> RState
    decreases imgs.len(),
{
    if imgs.len() == 0 {
        s
    } else {
        append_images_list(append_image(s, imgs[0].src, imgs[0].alt, true), imgs.drop_first())
    }
}

/// A raw HTML payload: with no image tags it is rendered verbatim as
/// one dim run; otherwise only its images are rendered, as captions
/// after a blank separator.
pub open spec fn html_step(s: RState, t: Seq<char>) -> RState {
    let imgs = html_images(t);
    if imgs.len() == 0 {
        push_run(s, t, dim())
    } else {
        append_images_list(blank_sep(s), imgs)
    }
}

/// One code segment: a non-empty segment becomes a dim two-space
/// indented run; each segment completes its own line.
pub open spec fn emit_code_seg(s: RState, seg: Seq<char>, base: Style) -> RState {
    let s1 = if seg.len() > 0 {
        push_run(s, "  "@ + seg, Style { dim: true, ..base })
    } else {
        s
    };
    flush(s1)
}

/// Text inside a code block, split on newlines into segments.
pub open spec fn code_text_step(s: RState, t: Seq<char>, base: Style) -> RState
    decreases t.len(),
{
    match find_char(t, '\n', 0) {
        Some(j) => if 0 <= j && j < t.len() {
            code_text_step(
                emit_code_seg(s, t.subrange(0, j), base),
                t.subrange(j + 1, t.len() as int),
                base,
            )
        } else {
            emit_code_seg(s, t, base)
        },
        None => emit_code_seg(s, t, base),
    }
}

/// A plain text node: inside a code block it is split into code lines;
/// otherwise it is appended under the current style, with the quote
/// prefix seeded first on an empty line inside a block quote.
pub open spec fn text_step(s: RState, t: Seq<char>) -> RState {
    if s.in_code {
        code_text_step(s, t, cur_style(s))
    } else {
        push_run(seed_quote(s), t, cur_style(s))
    }
}

/// The header line of a code block: the fence, with the trimmed
/// language token when one is present.
pub open spec fn code_header(lang: Option<String>) -> Seq<char> {
    match lang {
        Some(l) => {
            let t = trim_spec(l@);
            if t.len() == 0 {
                "```"@
            } else {
                "```"@ + t
            }
        },
        None => "```"@,
    }
}

/// A structural element opens.
pub open spec fn start_step(s: RState, tag: MdTag) -> RState {
    match tag {
        MdTag::Paragraph => s,
        MdTag::Heading { level } => {
            let s1 = blank_sep(s);
            RState { styles: s1.styles.push(heading_style(level)), ..s1 }
        },
        MdTag::BlockQuote => seed_quote(RState { quote_depth: s.quote_depth + 1, ..s }),
        MdTag::CodeBlock { lang } => {
            let s1 = blank_sep(s);
            RState {
                lines: s1.lines.push(seq![Run { text: code_header(lang), style: dim() }]),
                in_code: true,
                ..s1
            }
        },
        MdTag::List { start } => RState {
            lists: s.lists.push(
                match start {
                    Some(n) => ListKind::Ordered(n),
                    None => ListKind::Unordered,
                },
            ),
            ..s
        },
        MdTag::Item => item_step(s),
        MdTag::Emphasis => RState { styles: s.styles.push(Style { italic: true, ..cur_style(s) }), ..s },
        MdTag::Strong => RState { styles: s.styles.push(Style { bold: true, ..cur_style(s) }), ..s },
        MdTag::Strikethrough => RState {
            styles: s.styles.push(Style { strikethrough: true, ..cur_style(s) }),
            ..s
        },
        MdTag::Link { dest } => RState {
            styles: s.styles.push(Style { underline: true, ..cur_style(s) }),
            pending_link: Some(dest@),
            ..s
        },
        MdTag::Image { dest } => {
            let s1 = blank_sep(s);
            RState { pending_image: Some((dest@, Seq::empty())), ..s1 }
        },
        MdTag::Table => blank_sep(s),
        MdTag::TableRow => s,
        MdTag::TableCell => if s.cur.len() > 0 {
            push_run(s, " │ "@, plain())
        } else {
            s
        },
        MdTag::FootnoteDefinition { name } => push_run(blank_sep(s), "[^"@ + name@ + "] "@, dim()),
        MdTag::Other => s,
    }
}

/// A stack pop that leaves an empty stack alone.
pub open spec fn pop_seq<T>(v: Seq<T>) -> Seq<T> {
    if v.len() > 0 {
        v.drop_last()
    } else {
        v
    }
}

/// A structural element closes.
pub open spec fn end_step(s: RState, te: MdTagEnd) -> RState {
    match te {
        MdTagEnd::Paragraph => push_blank(flush(s)),
        MdTagEnd::Heading => {
            let s1 = flush(s);
            push_blank(RState { styles: pop_seq(s1.styles), ..s1 })
        },
        MdTagEnd::BlockQuote => {
            let s1 = if s.cur.len() > 0 {
                flush(s)
            } else {
                s
            };
            push_blank(
                RState {
                    quote_depth: if s1.quote_depth > 0 {
                        (s1.quote_depth - 1) as nat
                    } else {
                        0
                    },
                    ..s1
                },
            )
        },
        MdTagEnd::CodeBlock => {
            let s1 = if s.cur.len() > 0 {
                flush(s)
            } else {
                s
            };
            RState {
                lines: s1.lines.push(seq![Run { text: "```"@, style: dim() }]).push(Seq::empty()),
                in_code: false,
                ..s1
            }
        },
        MdTagEnd::List => push_blank(RState { lists: pop_seq(s.lists), ..s }),
        MdTagEnd::Item => flush(s),
        MdTagEnd::Emphasis => RState { styles: pop_seq(s.styles), ..s },
        MdTagEnd::Strong => RState { styles: pop_seq(s.styles), ..s },
        MdTagEnd::Strikethrough => RState { styles: pop_seq(s.styles), ..s },
        MdTagEnd::Link => {
            let s1 = RState { styles: pop_seq(s.styles), ..s };
            match s1.pending_link {
                Some(d) => RState {
                    pending_link: None,
                    cur: s1.cur.push(Run { text: " ("@ + d + ")"@, style: dim() }),
                    ..s1
                },
                None => s1,
            }
        },
        MdTagEnd::Image => s,
        MdTagEnd::Table => push_blank(flush_if_content(s)),
        MdTagEnd::TableRow => flush(s),
        MdTagEnd::Other => s,
    }
}

/// Flushes only when the line buffer holds content.
pub open spec fn flush_if_content(s: RState) -> RState {
    if s.cur.len() > 0 {
        flush(s)
    } else {
        s
    }
}

/// One event while an image capture is open: the matching close
/// finalizes the caption; text-bearing events feed the accumulator;
/// breaks add one space; everything else is dropped.
pub open spec fn capture_step(s: RState, src: Seq<char>, alt: Seq<char>, ev: MdEvent) -> RState {
    match ev {
        MdEvent::End(MdTagEnd::Image) => append_image(
            RState { pending_image: None, ..s },
            src,
            alt,
            true,
        ),
        MdEvent::Text(t) => RState { pending_image: Some((src, alt + t@)), ..s },
        MdEvent::Code(t) => RState { pending_image: Some((src, alt + t@)), ..s },
        MdEvent::Html(t) => RState { pending_image: Some((src, alt + t@)), ..s },
        MdEvent::InlineHtml(t) => RState { pending_image: Some((src, alt + t@)), ..s },
        MdEvent::InlineMath(t) => RState { pending_image: Some((src, alt + t@)), ..s },
        MdEvent::DisplayMath(t) => RState { pending_image: Some((src, alt + t@)), ..s },
        MdEvent::SoftBreak => RState { pending_image: Some((src, alt.push(' '))), ..s },
        MdEvent::HardBreak => RState { pending_image: Some((src, alt.push(' '))), ..s },
        _ => s,
    }
}

/// The transition function: one event applied to one state.
pub open spec fn spec_step(s: RState, ev: MdEvent) -> RState {
    match s.pending_image {
        Some(p) => capture_step(s, p.0, p.1, ev),
        None => match ev {
            MdEvent::Start(tag) => start_step(s, tag),
            MdEvent::End(te) => end_step(s, te),
            MdEvent::Text(t) => text_step(s, t@),
            MdEvent::Code(t) => push_run(s, "`"@ + t@ + "`"@, Style { bold: true, ..cur_style(s) }),
            MdEvent::Html(t) => html_step(s, t@),
            MdEvent::InlineHtml(t) => html_step(s, t@),
            MdEvent::SoftBreak => push_run(s, " "@, plain()),
            MdEvent::HardBreak => flush(s),
            MdEvent::Rule => {
                let s1 = flush(s);
                RState { lines: s1.lines.push(seq![Run { text: rep_char('─', 72), style: dim() }]), ..s1 }
            },
            MdEvent::TaskListMarker(done) => push_run(
                s,
                if done {
                    "[x] "@
                } else {
                    "[ ] "@
                },
                Style { bold: true, ..plain() },
            ),
            MdEvent::FootnoteReference(name) => push_run(s, "[^"@ + name@ + "]"@, dim()),
            MdEvent::InlineMath(t) => push_run(s, "$"@ + t@ + "$"@, Style { italic: true, ..plain() }),
            MdEvent::DisplayMath(t) => push_run(s, "$"@ + t@ + "$"@, Style { italic: true, ..plain() }),
        },
    }
}

/// Emitting code segments leaves the quote depth and the list stack
/// alone.
pub proof fn lemma_code_depth(s: RState, t: Seq<char>, base: Style)
    ensures
        code_text_step(s, t, base).quote_depth == s.quote_depth,
        code_text_step(s, t, base).lists == s.lists,
    decreases t.len(),
{
    match find_char(t, '\n', 0) {
        Some(j) => if 0 <= j && j < t.len() {
            lemma_code_depth(emit_code_seg(s, t.subrange(0, j), base), t.subrange(j + 1, t.len() as int), base);
        } else {
        },
        None => {},
    }
}

/// Appending image captions leaves the quote depth and the list stack
/// alone.
pub proof fn lemma_images_depth(s: RState, imgs: Seq<HtmlImageModel>)
    ensures
        append_images_list(s, imgs).quote_depth == s.quote_depth,
        append_images_list(s, imgs).lists == s.lists,
    decreases imgs.len(),
{
    if imgs.len() > 0 {
        lemma_images_depth(append_image(s, imgs[0].src, imgs[0].alt, true), imgs.drop_first());
    }
}

/// One step raises the quote depth by at most one.
pub proof fn lemma_step_depth(s: RState, ev: MdEvent)
    ensures
        spec_step(s, ev).quote_depth <= s.quote_depth + 1,
{
    if s.pending_image is None {
        match ev {
            MdEvent::Text(t) => if s.in_code {
                lemma_code_depth(s, t@, cur_style(s));
            },
            MdEvent::Html(t) => if html_images(t@).len() > 0 {
                lemma_images_depth(blank_sep(s), html_images(t@));
            },
            MdEvent::InlineHtml(t) => if html_images(t@).len() > 0 {
                lemma_images_depth(blank_sep(s), html_images(t@));
            },
            _ => {},
        }
    }
}

/// The state after a whole event sequence.
pub open spec fn run_steps(events: Seq<MdEvent>) -> RState
    decreases events.len(),
{
    if events.len() == 0 {
        init_state()
    } else {
        spec_step(run_steps(events.drop_last()), events.last())
    }
}

/// Removes every trailing blank row.
pub open spec fn trim_blank(lines: Seq<Seq<Run>>) -> Seq<Seq<Run>>
    decreases lines.len(),
{
    if lines.len() > 0 && lines.last().len() == 0 {
        trim_blank(lines.drop_last())
    } else {
        lines
    }
}

/// The single dim line shown for a document with no content.
pub open spec fn placeholder_line() -> Seq<Run> {
    seq![Run { text: "(empty markdown file)"@, style: dim() }]
}

/// The finishing pass: flush pending content, finalize an image
/// capture still open at the end of the stream (without a trailing
/// blank), strip trailing blank rows, and fall back to the placeholder
/// for an empty result.
pub open spec fn finish(s: RState) -> DocModel {
    let s1 = flush_if_content(s);
    let s2 = match s1.pending_image {
        Some(p) => append_image(RState { pending_image: None, ..s1 }, p.0, p.1, false),
        None => s1,
    };
    let lines = trim_blank(s2.lines);
    if lines.len() == 0 {
        DocModel { lines: seq![placeholder_line()], images: s2.images }
    } else {
        DocModel { lines, images: s2.images }
    }
}

/// The whole transform: a document event sequence to its rendered
/// output.
pub open spec fn render_spec(events: Seq<MdEvent>) -> DocModel {
    finish(run_steps(events))
}

} // verus!
