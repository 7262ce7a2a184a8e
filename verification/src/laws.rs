//! Laws of the renderer, proved over the transition model: what a raw
//! HTML payload's images contribute, how quote prefixes and ordered
//! markers are formed, what an empty stream renders as, and that the
//! finished output never ends in a blank row while every image anchor
//! stays a valid index.

use vstd::prelude::*;
use crate::events::MdEvent;
use crate::events::MdTag;
use crate::html_img::HtmlImageModel;
use crate::html_img::html_images;
use crate::model::DocModel;
use crate::model::ListKind;
use crate::model::RState;
use crate::model::append_image;
use crate::model::append_images_list;
use crate::model::blank_sep;
use crate::model::caption_runs;
use crate::model::code_text_step;
use crate::model::cur_style;
use crate::model::dim;
use crate::model::emit_code_seg;
use crate::text::find_char;
use crate::model::indent_of;
use crate::model::placeholder_line;
use crate::model::plain;
use crate::model::quote_prefix;
use crate::model::render_spec;
use crate::model::run_steps;
use crate::model::spec_step;
use crate::model::trim_blank;
use crate::style::Run;
use crate::style::Style;
use crate::text::dec_str;
use crate::text::rep_char;

verus! {

/// Appending a list of captions: one image entry per extracted image,
/// in order, each carrying that image's source; earlier entries and
/// the line buffer are untouched.
proof fn lemma_append_images_list(s: RState, imgs: Seq<HtmlImageModel>)
    ensures
        append_images_list(s, imgs).images.len() == s.images.len() + imgs.len(),
        forall|k: int|
            0 <= k < imgs.len() ==> append_images_list(s, imgs).images[s.images.len() + k].src
                == imgs[k].src,
        forall|k: int|
            0 <= k < s.images.len() ==> append_images_list(s, imgs).images[k] == s.images[k],
        append_images_list(s, imgs).cur == s.cur,
    decreases imgs.len(),
{
    if imgs.len() > 0 {
        let s1 = append_image(s, imgs[0].src, imgs[0].alt, true);
        lemma_append_images_list(s1, imgs.drop_first());
        assert(append_images_list(s, imgs) == append_images_list(s1, imgs.drop_first()));
        assert(s1.images == s.images.push(
            crate::model::ImgRef { src: imgs[0].src, line_index: s.lines.len() as int },
        ));
        assert forall|k: int| 0 <= k < imgs.len() implies append_images_list(
            s,
            imgs,
        ).images[s.images.len() + k].src == imgs[k].src by {
            if k > 0 {
                assert(imgs.drop_first() =~= imgs.subrange(1, imgs.len() as int));
                assert(imgs.drop_first()[k - 1] == imgs[k]);
                assert(append_images_list(s1, imgs.drop_first()).images[s1.images.len() + (k
                    - 1)].src == imgs.drop_first()[k - 1].src);
            } else {
                assert(append_images_list(s1, imgs.drop_first()).images[s.images.len() as int]
                    == s1.images[s.images.len() as int]);
            }
        }
        assert forall|k: int| 0 <= k < s.images.len() implies append_images_list(
            s,
            imgs,
        ).images[k] == s.images[k] by {
            assert(append_images_list(s1, imgs.drop_first()).images[k] == s1.images[k]);
            assert(s1.images[k] == s.images[k]);
        }
    }
}

/// A raw HTML payload holding images yields exactly one image entry
/// per `<img>` tag with a usable source, in their order of appearance
/// in the payload, and no literal HTML text is appended to the line
/// under construction.
pub proof fn lemma_html_payload_images(s: RState, t: String)
    requires
        s.pending_image is None,
        html_images(t@).len() > 0,
    ensures
        spec_step(s, MdEvent::Html(t)).images.len() == s.images.len() + html_images(t@).len(),
        forall|k: int|
            0 <= k < html_images(t@).len() ==> spec_step(s, MdEvent::Html(t)).images[s.images.len()
                + k].src == html_images(t@)[k].src,
        forall|k: int|
            0 <= k < s.images.len() ==> spec_step(s, MdEvent::Html(t)).images[k] == s.images[k],
        spec_step(s, MdEvent::Html(t)).cur.len() == 0,
{
    lemma_append_images_list(blank_sep(s), html_images(t@));
}

/// A text event arriving on an empty line inside a block quote at
/// depth `d` first seeds the line with the dim quote prefix: `d - 1`
/// two-space groups, then a bar and a space.
pub proof fn lemma_quote_prefix_on_text(s: RState, t: String)
    requires
        s.pending_image is None,
        !s.in_code,
        s.cur.len() == 0,
        s.quote_depth > 0,
    ensures
        spec_step(s, MdEvent::Text(t)).cur.len() == 2,
        spec_step(s, MdEvent::Text(t)).cur[0] == (Run {
            text: quote_prefix(s.quote_depth),
            style: dim(),
        }),
        quote_prefix(s.quote_depth) == rep_char(' ', (2 * (s.quote_depth - 1)) as nat) + "│ "@,
{
}

/// Entering a block quote with an empty line buffer seeds the prefix
/// for the new depth at once.
pub proof fn lemma_quote_enter_seeds(s: RState)
    requires
        s.pending_image is None,
        s.cur.len() == 0,
    ensures
        spec_step(s, MdEvent::Start(MdTag::BlockQuote)).quote_depth == s.quote_depth + 1,
        spec_step(s, MdEvent::Start(MdTag::BlockQuote)).cur[0] == (Run {
            text: quote_prefix(s.quote_depth + 1),
            style: dim(),
        }),
{
}

/// An item of an ordered list whose counter stands at `n` is marked
/// `n.` after the list indent, and the counter advances to `n + 1`;
/// every outer list's entry is left untouched, so sibling and nested
/// counters are independent.
pub proof fn lemma_ordered_item_marker(s: RState, n: u64)
    requires
        s.pending_image is None,
        s.lists.len() > 0,
        s.lists.last() == ListKind::Ordered(n),
        n < u64::MAX,
    ensures
        spec_step(s, MdEvent::Start(MdTag::Item)).cur.last() == (Run {
            text: indent_of(s.lists) + dec_str(n as nat) + ". "@,
            style: plain(),
        }),
        spec_step(s, MdEvent::Start(MdTag::Item)).lists == s.lists.update(
            s.lists.len() - 1,
            ListKind::Ordered((n + 1) as u64),
        ),
        forall|k: int|
            0 <= k < s.lists.len() - 1 ==> spec_step(s, MdEvent::Start(MdTag::Item)).lists[k]
                == s.lists[k],
{
    assert(indent_of(s.lists) + (dec_str(n as nat) + ". "@) =~= indent_of(s.lists) + dec_str(
        n as nat,
    ) + ". "@);
}

/// Whether an event opens a list, opens an item or closes a list: the
/// only events that touch the list stack.
pub open spec fn touches_lists(ev: MdEvent) -> bool {
    match ev {
        MdEvent::Start(MdTag::List { .. }) => true,
        MdEvent::Start(MdTag::Item) => true,
        MdEvent::End(te) => te == crate::events::MdTagEnd::List,
        _ => false,
    }
}

/// Any event other than a list opening, an item opening or a list
/// closing leaves the list stack untouched, so each ordered list's
/// counter advances only at its own items.
pub proof fn lemma_step_preserves_lists(s: RState, ev: MdEvent)
    requires
        !touches_lists(ev),
    ensures
        spec_step(s, ev).lists == s.lists,
{
    if s.pending_image is None {
        match ev {
            MdEvent::Text(t) => if s.in_code {
                crate::model::lemma_code_depth(s, t@, cur_style(s));
            },
            MdEvent::Html(t) => if html_images(t@).len() > 0 {
                crate::model::lemma_images_depth(blank_sep(s), html_images(t@));
            },
            MdEvent::InlineHtml(t) => if html_images(t@).len() > 0 {
                crate::model::lemma_images_depth(blank_sep(s), html_images(t@));
            },
            _ => {},
        }
    }
}

/// An empty event stream renders as the single dim placeholder line
/// and an empty image list.
pub proof fn lemma_render_empty()
    ensures
        render_spec(Seq::empty()) == (DocModel {
            lines: seq![placeholder_line()],
            images: Seq::empty(),
        }),
{
    assert(render_spec(Seq::empty()) =~~= (DocModel {
        lines: seq![placeholder_line()],
        images: Seq::empty(),
    }));
}

/// Every image anchor of a document names an existing, non-blank line.
pub open spec fn images_anchored(d: DocModel) -> bool {
    forall|k: int|
        0 <= k < d.images.len() ==> 0 <= (#[trigger] d.images[k]).line_index < d.lines.len()
            && d.lines[d.images[k].line_index].len() > 0
}

/// The anchoring invariant over a renderer state.
pub open spec fn state_anchored(s: RState) -> bool {
    forall|k: int|
        0 <= k < s.images.len() ==> 0 <= (#[trigger] s.images[k]).line_index < s.lines.len()
            && s.lines[s.images[k].line_index].len() > 0
}

proof fn lemma_anchored_append_image(s: RState, src: Seq<char>, alt: Seq<char>, trailing: bool)
    requires
        state_anchored(s),
    ensures
        state_anchored(append_image(s, src, alt, trailing)),
{
    assert(caption_runs(src, crate::text::trim_spec(alt)).len() > 0);
}

proof fn lemma_anchored_images_list(s: RState, imgs: Seq<HtmlImageModel>)
    requires
        state_anchored(s),
    ensures
        state_anchored(append_images_list(s, imgs)),
    decreases imgs.len(),
{
    if imgs.len() > 0 {
        lemma_anchored_append_image(s, imgs[0].src, imgs[0].alt, true);
        lemma_anchored_images_list(append_image(s, imgs[0].src, imgs[0].alt, true), imgs.drop_first());
    }
}

proof fn lemma_anchored_code(s: RState, t: Seq<char>, base: Style)
    requires
        state_anchored(s),
    ensures
        state_anchored(code_text_step(s, t, base)),
    decreases t.len(),
{
    match find_char(t, '\n', 0) {
        Some(j) => if 0 <= j && j < t.len() {
            lemma_anchored_code(
                emit_code_seg(s, t.subrange(0, j), base),
                t.subrange(j + 1, t.len() as int),
                base,
            );
        } else {
        },
        None => {},
    }
}

/// One step preserves the anchoring invariant: lines are only ever
/// appended, and every caption line recorded carries runs.
proof fn lemma_step_anchored(s: RState, ev: MdEvent)
    requires
        state_anchored(s),
    ensures
        state_anchored(spec_step(s, ev)),
{
    match s.pending_image {
        Some(p) => {
            if ev is End {
                lemma_anchored_append_image(
                    RState { pending_image: None, ..s },
                    p.0,
                    p.1,
                    true,
                );
            }
        },
        None => {
            match ev {
                MdEvent::Text(t) => if s.in_code {
                    lemma_anchored_code(s, t@, cur_style(s));
                },
                MdEvent::Html(t) => if html_images(t@).len() > 0 {
                    lemma_anchored_images_list(blank_sep(s), html_images(t@));
                },
                MdEvent::InlineHtml(t) => if html_images(t@).len() > 0 {
                    lemma_anchored_images_list(blank_sep(s), html_images(t@));
                },
                _ => {},
            }
        },
    }
}

proof fn lemma_run_anchored(events: Seq<MdEvent>)
    ensures
        state_anchored(run_steps(events)),
    decreases events.len(),
{
    if events.len() > 0 {
        lemma_run_anchored(events.drop_last());
        lemma_step_anchored(run_steps(events.drop_last()), events.last());
    }
}

/// What trimming does: it removes a suffix of blank rows, leaves every
/// earlier line at its index, ends on a non-blank line when anything
/// is left, and keeps every non-blank line.
proof fn lemma_trim_blank(lines: Seq<Seq<Run>>)
    ensures
        trim_blank(lines).len() <= lines.len(),
        forall|i: int| 0 <= i < trim_blank(lines).len() ==> trim_blank(lines)[i] == lines[i],
        trim_blank(lines).len() > 0 ==> trim_blank(lines).last().len() > 0,
        forall|i: int|
            0 <= i < lines.len() && lines[i].len() > 0 ==> i < trim_blank(lines).len(),
    decreases lines.len(),
{
    if lines.len() > 0 && lines.last().len() == 0 {
        lemma_trim_blank(lines.drop_last());
        assert(trim_blank(lines) == trim_blank(lines.drop_last()));
        assert(lines.drop_last() =~= lines.subrange(0, lines.len() - 1));
        assert(forall|i: int|
            0 <= i < lines.len() - 1 ==> lines.drop_last()[i] == lines[i]);
    } else {
        assert(trim_blank(lines) == lines);
    }
}

/// The finished output of any event stream has at least one line, does
/// not end in a blank row, and anchors every image reference at an
/// existing, non-blank line — trimming removes only trailing blank
/// rows that nothing references.
pub proof fn lemma_render_trimmed(events: Seq<MdEvent>)
    ensures
        render_spec(events).lines.len() > 0,
        render_spec(events).lines.last().len() > 0,
        images_anchored(render_spec(events)),
{
    lemma_run_anchored(events);
    let s = run_steps(events);
    let s1 = crate::model::flush_if_content(s);
    assert(state_anchored(s1));
    let s2 = match s1.pending_image {
        Some(p) => append_image(RState { pending_image: None, ..s1 }, p.0, p.1, false),
        None => s1,
    };
    match s1.pending_image {
        Some(p) => {
            lemma_anchored_append_image(RState { pending_image: None, ..s1 }, p.0, p.1, false);
        },
        None => {},
    }
    assert(state_anchored(s2));
    lemma_trim_blank(s2.lines);
    let trimmed = trim_blank(s2.lines);
    if trimmed.len() == 0 {
        if s2.images.len() > 0 {
            assert(s2.lines[s2.images[0].line_index].len() > 0);
            assert(false);
        }
        assert(placeholder_line().len() > 0);
    }
}

} // verus!
