//! The executable renderer: a single-pass state machine over the
//! document event stream, proved to follow the transition model in
//! `model`.

use vstd::prelude::*;
use crate::events::MdEvent;
use crate::events::MdTag;
use crate::events::MdTagEnd;
use crate::html_img::extract_html_images;
use crate::html_img::imgs_view;
use crate::model::DocModel;
use crate::model::ImgRef;
use crate::model::ListKind;
use crate::model::RState;
use crate::model::append_image;
use crate::model::append_images_list;
use crate::model::blank_sep;
use crate::model::code_header;
use crate::model::code_text_step;
use crate::model::cur_style;
use crate::model::dim;
use crate::model::emit_code_seg;
use crate::model::finish;
use crate::model::flush;
use crate::model::heading_style;
use crate::model::init_state;
use crate::model::item_step;
use crate::model::html_step;
use crate::model::marker_of;
use crate::model::indent_of;
use crate::model::bump_top;
use crate::model::pop_seq;
use crate::model::push_blank;
use crate::model::push_run;
use crate::model::run_steps;
use crate::model::render_spec;
use crate::model::seed_quote;
use crate::model::spec_step;
use crate::model::trim_blank;
use crate::model::placeholder_line;
use crate::style::RenderLine;
use crate::style::Run;
use crate::style::Style;
use crate::style::StyledRun;
use crate::style::lines_view;
use crate::style::runs_view;
use crate::text::chars_to_string;
use crate::text::find_char_in;
use crate::text::lemma_find_char;
use crate::text::lemma_find_char_sub;
use crate::text::push_char;
use crate::text::repeat_char;
use crate::text::to_chars;
use crate::text::trim_string;
use crate::text::two_space_indent;
use crate::text::u64_to_string;

verus! {

/// One recorded image reference: its source and the index of its
/// caption line within the final output.
#[derive(Clone, Debug)]
pub struct RenderedImage {
    pub src: String,
    pub line_index: usize,
}

impl View for RenderedImage {
    type V = ImgRef;

    open spec fn view(&self) -> ImgRef {
        ImgRef { src: self.src@, line_index: self.line_index as int }
    }
}

/// The model of a sequence of recorded image references.
pub open spec fn images_view(v: Seq<RenderedImage>) -> Seq<ImgRef> {
    v.map_values(|im: RenderedImage| im@)
}

/// The rendered document: the display lines, and the image references
/// anchored into them.
#[derive(Clone, Debug)]
pub struct RenderedDoc {
    pub lines: Vec<RenderLine>,
    pub images: Vec<RenderedImage>,
}

impl View for RenderedDoc {
    type V = DocModel;

    open spec fn view(&self) -> DocModel {
        DocModel { lines: lines_view(self.lines@), images: images_view(self.images@) }
    }
}

proof fn lemma_runs_view_push(v: Seq<StyledRun>, x: StyledRun)
    ensures
        runs_view(v.push(x)) == runs_view(v).push(x@),
{
    assert(runs_view(v.push(x)) =~= runs_view(v).push(x@));
}

/// The renderer state; see `RState` for what each field models.
pub struct Renderer {
    pub lines: Vec<RenderLine>,
    pub images: Vec<RenderedImage>,
    pub cur: Vec<StyledRun>,
    pub styles: Vec<Style>,
    pub lists: Vec<ListKind>,
    pub in_code: bool,
    pub quote_depth: usize,
    pub pending_link: Option<String>,
    pub pending_image: Option<(String, String)>,
}

impl View for Renderer {
    type V = RState;

    open spec fn view(&self) -> RState {
        RState {
            lines: lines_view(self.lines@),
            images: images_view(self.images@),
            cur: runs_view(self.cur@),
            styles: self.styles@,
            lists: self.lists@,
            in_code: self.in_code,
            quote_depth: self.quote_depth as nat,
            pending_link: match self.pending_link {
                Some(s) => Some(s@),
                None => None,
            },
            pending_image: match self.pending_image {
                Some(p) => Some((p.0@, p.1@)),
                None => None,
            },
        }
    }
}

fn dim_style() -> (st: Style)
    ensures
        st == dim(),
{
    Style::plain().with_dim()
}

impl Renderer {
    /// A fresh renderer in the initial state.
    pub fn new() -> (r: Renderer)
        ensures
            r@ == init_state(),
    {
        let mut styles: Vec<Style> = Vec::new();
        styles.push(Style::plain());
        let r = Renderer {
            lines: Vec::new(),
            images: Vec::new(),
            cur: Vec::new(),
            styles,
            lists: Vec::new(),
            in_code: false,
            quote_depth: 0,
            pending_link: None,
            pending_image: None,
        };
        proof {
            assert(r@ =~~= init_state());
        }
        r
    }

    /// The style at the top of the stack.
    fn current_style(&self) -> (st: Style)
        ensures
            st == cur_style(self@),
    {
        if self.styles.len() > 0 {
            self.styles[self.styles.len() - 1]
        } else {
            Style::plain()
        }
    }

    /// Completes the line under construction.
    fn flush_line(&mut self)
        ensures
            final(self)@ == flush(old(self)@),
    {
        let mut tmp: Vec<StyledRun> = Vec::new();
        core::mem::swap(&mut self.cur, &mut tmp);
        self.lines.push(RenderLine { runs: tmp });
        proof {
            assert(runs_view(Seq::<StyledRun>::empty()) =~= Seq::<Run>::empty());
            assert(self@.lines =~= flush(old(self)@).lines);
            assert(self@ =~~= flush(old(self)@));
        }
    }

    /// Appends one blank row.
    fn push_blank_line(&mut self)
        ensures
            final(self)@ == push_blank(old(self)@),
    {
        self.lines.push(RenderLine { runs: Vec::new() });
        proof {
            assert(runs_view(Seq::<StyledRun>::empty()) =~= Seq::<Run>::empty());
            assert(self@.lines =~= push_blank(old(self)@).lines);
            assert(self@ =~~= push_blank(old(self)@));
        }
    }

    /// The blank separator.
    fn blank_line(&mut self)
        ensures
            final(self)@ == blank_sep(old(self)@),
    {
        if self.cur.len() > 0 {
            self.flush_line();
        }
        let need = if self.lines.len() == 0 {
            true
        } else {
            self.lines[self.lines.len() - 1].runs.len() > 0
        };
        if need {
            self.push_blank_line();
        }
        proof {
            assert(self@ =~~= blank_sep(old(self)@));
        }
    }

    /// Appends one styled run to the line under construction.
    fn push_styled(&mut self, text: String, style: Style)
        ensures
            final(self)@ == push_run(old(self)@, text@, style),
    {
        let run = StyledRun { text, style };
        proof {
            lemma_runs_view_push(old(self).cur@, run);
        }
        self.cur.push(run);
        proof {
            assert(self@ =~~= push_run(old(self)@, run.text@, style));
        }
    }

    /// Appends one line holding a single styled run.
    fn push_line_of(&mut self, text: String, style: Style)
        ensures
            final(self)@ == (RState {
                lines: old(self)@.lines.push(seq![Run { text: text@, style }]),
                ..old(self)@
            }),
    {
        let run = StyledRun { text, style };
        let ghost rv = run@;
        let mut runs: Vec<StyledRun> = Vec::new();
        runs.push(run);
        self.lines.push(RenderLine { runs });
        proof {
            assert(self@.lines =~~= old(self)@.lines.push(seq![rv]));
            assert(self@ =~~= (RState { lines: old(self)@.lines.push(seq![rv]), ..old(self)@ }));
        }
    }

    /// Seeds the empty line buffer with the dim quote prefix when
    /// inside a block quote.
    fn seed_quote_line(&mut self)
        ensures
            final(self)@ == seed_quote(old(self)@),
    {
        if self.cur.len() == 0 && self.quote_depth > 0 {
            let mut p = two_space_indent(self.quote_depth - 1);
            p.append("│ ");
            self.push_styled(p, dim_style());
        }
        proof {
            assert(self@ =~~= seed_quote(old(self)@));
        }
    }

    /// Pops the style stack, leaving an empty stack alone.
    fn pop_style_stack(&mut self)
        ensures
            final(self)@ == (RState { styles: pop_seq(old(self)@.styles), ..old(self)@ }),
    {
        let _popped = self.styles.pop();
        proof {
            if old(self)@.styles.len() > 0 {
                assert(old(self)@.styles.drop_last() =~= old(self)@.styles.subrange(
                    0,
                    old(self)@.styles.len() - 1,
                ));
            }
            assert(self@ =~~= (RState { styles: pop_seq(old(self)@.styles), ..old(self)@ }));
        }
    }

    /// Appends one image caption line and records the reference to it.
    fn append_image_entry(&mut self, src: String, alt_raw: String, trailing: bool)
        ensures
            final(self)@ == append_image(old(self)@, src@, alt_raw@, trailing),
    {
        let alt = trim_string(&alt_raw);
        let idx = self.lines.len();
        let mut runs: Vec<StyledRun> = Vec::new();
        runs.push(
            StyledRun {
                text: String::from_str("[image] "),
                style: Style::plain().with_dim().with_bold(),
            },
        );
        if alt.as_str().unicode_len() == 0 {
            runs.push(StyledRun { text: src.clone(), style: Style::plain().with_underline() });
        } else {
            runs.push(StyledRun { text: alt, style: Style::plain() });
            let mut suffix = String::from_str(" (");
            suffix.append(src.as_str());
            suffix.append(")");
            runs.push(StyledRun { text: suffix, style: dim_style() });
        }
        proof {
            assert(runs_view(runs@) =~~= crate::model::caption_runs(
                src@,
                crate::text::trim_spec(alt_raw@),
            ));
        }
        self.lines.push(RenderLine { runs });
        self.images.push(RenderedImage { src, line_index: idx });
        if trailing {
            self.push_blank_line();
        }
        proof {
            assert(self@.lines =~~= append_image(old(self)@, src@, alt_raw@, trailing).lines);
            assert(self@.images =~~= append_image(old(self)@, src@, alt_raw@, trailing).images);
            assert(self@ =~~= append_image(old(self)@, src@, alt_raw@, trailing));
        }
    }

    /// A list item opens: flush pending content, seed the fresh line
    /// with indent and marker, and advance an ordered counter.
    fn item_start(&mut self)
        ensures
            final(self)@ == item_step(old(self)@),
    {
        if self.cur.len() > 0 {
            self.flush_line();
        }
        let ghost s1 = self@;
        let mut text = if self.lists.len() == 0 {
            String::new()
        } else {
            two_space_indent(self.lists.len() - 1)
        };
        proof {
            assert(text@ == indent_of(s1.lists));
        }
        let marker: String;
        if self.lists.len() == 0 {
            marker = String::from_str("• ");
        } else {
            let k = self.lists.len() - 1;
            match self.lists[k] {
                ListKind::Ordered(n) => {
                    let mut m = u64_to_string(n);
                    m.append(". ");
                    marker = m;
                    let n2 = if n < u64::MAX {
                        n + 1
                    } else {
                        n
                    };
                    self.lists[k] = ListKind::Ordered(n2);
                },
                ListKind::Unordered => {
                    marker = String::from_str("• ");
                },
            }
        }
        proof {
            assert(marker@ == marker_of(s1.lists));
            assert(self.lists@ == bump_top(s1.lists));
        }
        text.append(marker.as_str());
        self.cur.push(StyledRun { text, style: Style::plain() });
        proof {
            assert(self@.cur =~~= item_step(old(self)@).cur);
            assert(self@ =~~= item_step(old(self)@));
        }
    }

    /// Text inside a code block: each newline-separated segment becomes
    /// its own dim, two-space indented line.
    fn code_text(&mut self, t: &String)
        ensures
            final(self)@ == code_text_step(old(self)@, t@, cur_style(old(self)@)),
    {
        let base = self.current_style();
        let v = to_chars(t.as_str());
        let n = v.len();
        let ghost orig = self@;
        proof {
            assert(v@.subrange(0, n as int) =~= t@);
        }
        let mut pos: usize = 0;
        let mut done = false;
        while !done
            invariant
                pos <= n,
                n == v@.len(),
                v@ == t@,
                !done ==> code_text_step(orig, t@, base) == code_text_step(
                    self@,
                    v@.subrange(pos as int, n as int),
                    base,
                ),
                done ==> code_text_step(orig, t@, base) == self@,
            decreases n - pos + (if done { 0int } else { 1int }),
        {
            let ghost before = self@;
            let ghost rem = v@.subrange(pos as int, n as int);
            match find_char_in(&v, '\n', pos) {
                Some(j) => {
                    proof {
                        lemma_find_char(v@, '\n', pos as int);
                        lemma_find_char_sub(v@, '\n', pos as int, 0);
                        assert(rem.subrange(0, j - pos as int) =~= v@.subrange(pos as int, j as int));
                        assert(rem.subrange(j - pos as int + 1, rem.len() as int) =~= v@.subrange(
                            j + 1 as int,
                            n as int,
                        ));
                    }
                    self.emit_code_segment(&v, pos, j, base);
                    pos = j + 1;
                },
                None => {
                    proof {
                        lemma_find_char_sub(v@, '\n', pos as int, 0);
                        assert(rem.subrange(0, rem.len() as int) =~= rem);
                    }
                    self.emit_code_segment(&v, pos, n, base);
                    done = true;
                },
            }
        }
    }

    /// One code segment: a non-empty segment becomes a dim run; the
    /// line is completed either way.
    fn emit_code_segment(&mut self, v: &Vec<char>, from: usize, to: usize, base: Style)
        requires
            from <= to <= v@.len(),
        ensures
            final(self)@ == emit_code_seg(old(self)@, v@.subrange(from as int, to as int), base),
    {
        if to > from {
            let seg = chars_to_string(v, from, to);
            let mut txt = String::from_str("  ");
            txt.append(seg.as_str());
            self.push_styled(txt, base.with_dim());
        }
        self.flush_line();
        proof {
            assert(self@ =~~= emit_code_seg(old(self)@, v@.subrange(from as int, to as int), base));
        }
    }

    /// A raw HTML payload: rendered verbatim as one dim run when it
    /// holds no image tags, otherwise replaced by its image captions.
    fn html_payload(&mut self, t: &String)
        ensures
            final(self)@ == html_step(old(self)@, t@),
    {
        let mut imgs = extract_html_images(t.as_str());
        if imgs.len() == 0 {
            proof {
                assert(imgs_view(imgs@).len() == 0);
            }
            self.push_styled(t.clone(), dim_style());
        } else {
            self.blank_line();
            let ghost s0 = self@;
            let ghost all = imgs_view(imgs@);
            while imgs.len() > 0
                invariant
                    append_images_list(s0, all) == append_images_list(self@, imgs_view(imgs@)),
                decreases imgs@.len(),
            {
                let ghost pre = imgs_view(imgs@);
                let ghost st = self@;
                let im = imgs.remove(0);
                proof {
                    assert(pre[0] == im@);
                    assert(pre.drop_first() =~= imgs_view(imgs@));
                }
                self.append_image_entry(im.src, im.alt, true);
            }
            proof {
                assert(imgs_view(imgs@).len() == 0);
            }
        }
        proof {
            assert(self@ =~~= html_step(old(self)@, t@));
        }
    }
}

impl Renderer {
    /// Applies one event to the renderer state, following the
    /// transition model exactly.
    #[verifier::rlimit(100)]
    pub fn step(&mut self, ev: &MdEvent)
        requires
            old(self)@.quote_depth < usize::MAX,
        ensures
            final(self)@ == spec_step(old(self)@, *ev),
    {
        if self.pending_image.is_some() {
            let p = self.pending_image.take();
            match ev {
                MdEvent::End(MdTagEnd::Image) => {
                    if let Some(pi) = p {
                        self.append_image_entry(pi.0, pi.1, true);
                    }
                },
                MdEvent::Text(t) | MdEvent::Code(t) | MdEvent::Html(t) | MdEvent::InlineHtml(t)
                | MdEvent::InlineMath(t) | MdEvent::DisplayMath(t) => {
                    if let Some(pi) = p {
                        let (src, mut alt) = pi;
                        alt.append(t.as_str());
                        self.pending_image = Some((src, alt));
                    }
                },
                MdEvent::SoftBreak | MdEvent::HardBreak => {
                    if let Some(pi) = p {
                        let (src, mut alt) = pi;
                        push_char(&mut alt, ' ');
                        self.pending_image = Some((src, alt));
                    }
                },
                _ => {
                    self.pending_image = p;
                },
            }
            proof {
                assert(self@ =~~= spec_step(old(self)@, *ev));
            }
            return;
        }
        match ev {
            MdEvent::Start(tag) => match tag {
                MdTag::Paragraph => {},
                MdTag::Heading { level } => {
                    self.blank_line();
                    let st = heading_style_of(*level);
                    self.styles.push(st);
                },
                MdTag::BlockQuote => {
                    self.quote_depth = self.quote_depth + 1;
                    self.seed_quote_line();
                },
                MdTag::CodeBlock { lang } => {
                    self.blank_line();
                    let header: String;
                    match lang {
                        Some(l) => {
                            let tr = trim_string(l);
                            if tr.as_str().unicode_len() == 0 {
                                header = String::from_str("```");
                            } else {
                                let mut h = String::from_str("```");
                                h.append(tr.as_str());
                                header = h;
                            }
                        },
                        None => {
                            header = String::from_str("```");
                        },
                    }
                    proof {
                        assert(header@ == code_header(*lang));
                    }
                    self.push_line_of(header, dim_style());
                    self.in_code = true;
                },
                MdTag::List { start } => {
                    let k = match start {
                        Some(n) => ListKind::Ordered(*n),
                        None => ListKind::Unordered,
                    };
                    self.lists.push(k);
                },
                MdTag::Item => self.item_start(),
                MdTag::Emphasis => {
                    let st = self.current_style();
                    self.styles.push(st.with_italic());
                },
                MdTag::Strong => {
                    let st = self.current_style();
                    self.styles.push(st.with_bold());
                },
                MdTag::Strikethrough => {
                    let st = self.current_style();
                    self.styles.push(st.with_strikethrough());
                },
                MdTag::Link { dest } => {
                    let st = self.current_style();
                    self.styles.push(st.with_underline());
                    self.pending_link = Some(dest.clone());
                },
                MdTag::Image { dest } => {
                    self.blank_line();
                    self.pending_image = Some((dest.clone(), String::new()));
                },
                MdTag::Table => self.blank_line(),
                MdTag::TableRow => {},
                MdTag::TableCell => {
                    if self.cur.len() > 0 {
                        self.push_styled(String::from_str(" │ "), Style::plain());
                    }
                },
                MdTag::FootnoteDefinition { name } => {
                    self.blank_line();
                    let mut tx = String::from_str("[^");
                    tx.append(name.as_str());
                    tx.append("] ");
                    self.push_styled(tx, dim_style());
                },
                MdTag::Other => {},
            },
            MdEvent::End(te) => match te {
                MdTagEnd::Paragraph => {
                    self.flush_line();
                    self.push_blank_line();
                },
                MdTagEnd::Heading => {
                    self.flush_line();
                    self.pop_style_stack();
                    self.push_blank_line();
                },
                MdTagEnd::BlockQuote => {
                    if self.cur.len() > 0 {
                        self.flush_line();
                    }
                    if self.quote_depth > 0 {
                        self.quote_depth = self.quote_depth - 1;
                    }
                    self.push_blank_line();
                },
                MdTagEnd::CodeBlock => {
                    if self.cur.len() > 0 {
                        self.flush_line();
                    }
                    self.push_line_of(String::from_str("```"), dim_style());
                    self.push_blank_line();
                    self.in_code = false;
                },
                MdTagEnd::List => {
                    let _popped = self.lists.pop();
                    proof {
                        if old(self)@.lists.len() > 0 {
                            assert(old(self)@.lists.drop_last() =~= old(self)@.lists.subrange(
                                0,
                                old(self)@.lists.len() - 1,
                            ));
                        }
                    }
                    self.push_blank_line();
                },
                MdTagEnd::Item => self.flush_line(),
                MdTagEnd::Emphasis => self.pop_style_stack(),
                MdTagEnd::Strong => self.pop_style_stack(),
                MdTagEnd::Strikethrough => self.pop_style_stack(),
                MdTagEnd::Link => {
                    self.pop_style_stack();
                    let d = self.pending_link.take();
                    if let Some(link) = d {
                        let mut tx = String::from_str(" (");
                        tx.append(link.as_str());
                        tx.append(")");
                        self.push_styled(tx, dim_style());
                    }
                },
                MdTagEnd::Image => {},
                MdTagEnd::Table => {
                    if self.cur.len() > 0 {
                        self.flush_line();
                    }
                    self.push_blank_line();
                },
                MdTagEnd::TableRow => self.flush_line(),
                MdTagEnd::Other => {},
            },
            MdEvent::Text(t) => {
                if self.in_code {
                    self.code_text(t);
                } else {
                    let base = self.current_style();
                    self.seed_quote_line();
                    self.push_styled(t.clone(), base);
                }
            },
            MdEvent::Code(t) => {
                let base = self.current_style();
                let mut tx = String::from_str("`");
                tx.append(t.as_str());
                tx.append("`");
                self.push_styled(tx, base.with_bold());
            },
            MdEvent::Html(t) => self.html_payload(t),
            MdEvent::InlineHtml(t) => self.html_payload(t),
            MdEvent::SoftBreak => self.push_styled(String::from_str(" "), Style::plain()),
            MdEvent::HardBreak => self.flush_line(),
            MdEvent::Rule => {
                self.flush_line();
                self.push_line_of(repeat_char('─', 72), dim_style());
            },
            MdEvent::TaskListMarker(done) => {
                let tx = if *done {
                    String::from_str("[x] ")
                } else {
                    String::from_str("[ ] ")
                };
                self.push_styled(tx, Style::plain().with_bold());
            },
            MdEvent::FootnoteReference(name) => {
                let mut tx = String::from_str("[^");
                tx.append(name.as_str());
                tx.append("]");
                self.push_styled(tx, dim_style());
            },
            MdEvent::InlineMath(t) | MdEvent::DisplayMath(t) => {
                let mut tx = String::from_str("$");
                tx.append(t.as_str());
                tx.append("$");
                self.push_styled(tx, Style::plain().with_italic());
            },
        }
        proof {
            assert(self@ =~~= spec_step(old(self)@, *ev));
        }
    }

    /// The finishing pass: flush pending content, finalize an open
    /// image capture, strip trailing blank rows, and fall back to the
    /// placeholder line for an empty result.
    pub fn finish_doc(self) -> (doc: RenderedDoc)
        ensures
            doc@ == finish(self@),
    {
        let mut r = self;
        if r.cur.len() > 0 {
            r.flush_line();
        }
        let p = r.pending_image.take();
        if let Some(pi) = p {
            r.append_image_entry(pi.0, pi.1, false);
        }
        let ghost s2 = r@;
        while r.lines.len() > 0 && r.lines[r.lines.len() - 1].runs.len() == 0
            invariant
                trim_blank(s2.lines) == trim_blank(lines_view(r.lines@)),
                r@ == (RState { lines: r@.lines, ..s2 }),
            decreases r.lines@.len(),
        {
            let ghost prev = r.lines@;
            let _popped = r.lines.pop();
            proof {
                assert(prev.drop_last() =~= prev.subrange(0, prev.len() - 1));
                assert(lines_view(prev).drop_last() =~= lines_view(prev.drop_last()));
                assert(lines_view(prev).last() == prev.last()@);
                assert(r@ =~~= (RState { lines: r@.lines, ..s2 }));
            }
        }
        proof {
            if r.lines@.len() > 0 {
                assert(lines_view(r.lines@).last() == r.lines@.last()@);
            }
            assert(trim_blank(lines_view(r.lines@)) == lines_view(r.lines@));
        }
        if r.lines.len() == 0 {
            r.push_line_of(String::from_str("(empty markdown file)"), dim_style());
            proof {
                assert(lines_view(r.lines@) =~~= seq![placeholder_line()]);
            }
        }
        let doc = RenderedDoc { lines: r.lines, images: r.images };
        proof {
            assert(doc@ =~~= finish(self@));
        }
        doc
    }
}

/// Renders a complete event sequence into a document. The output
/// never ends in a blank row, and every image reference is anchored at
/// an existing, non-blank line.
pub fn render_events(events: &Vec<MdEvent>) -> (doc: RenderedDoc)
    ensures
        doc@ == render_spec(events@),
        doc@.lines.len() > 0,
        doc@.lines.last().len() > 0,
        crate::laws::images_anchored(doc@),
{
    proof {
        crate::laws::lemma_render_trimmed(events@);
    }
    let mut r = Renderer::new();
    proof {
        assert(events@.subrange(0, 0) =~= Seq::<MdEvent>::empty());
    }
    let mut i: usize = 0;
    while i < events.len()
        invariant
            i <= events@.len(),
            r@ == run_steps(events@.subrange(0, i as int)),
            r@.quote_depth <= i,
        decreases events@.len() - i,
    {
        let ghost pre = r@;
        r.step(&events[i]);
        proof {
            assert(events@.subrange(0, i + 1 as int).drop_last() =~= events@.subrange(0, i as int));
            assert(events@.subrange(0, i + 1 as int).last() == events@[i as int]);
            crate::model::lemma_step_depth(pre, events@[i as int]);
        }
        i = i + 1;
    }
    proof {
        assert(events@.subrange(0, events@.len() as int) =~= events@);
    }
    r.finish_doc()
}

fn heading_style_of(level: u8) -> (st: Style)
    ensures
        st == heading_style(level),
{
    if level == 1 {
        Style::plain().with_bold().with_underline()
    } else if level == 2 {
        Style::plain().with_bold()
    } else if level == 3 || level == 4 {
        Style::plain().with_bold().with_italic()
    } else {
        Style::plain().with_italic()
    }
}

} // verus!

