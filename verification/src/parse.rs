//! The boundary to the markdown front end: the event stream for a
//! document is produced by the `pulldown_cmark` parser and converted,
//! variant for variant, into the library's event type. The stream is a
//! pure function of the input text, named `events_of`; everything
//! after it is verified against that name.

use vstd::prelude::*;
use crate::events::MdEvent;
use crate::events::MdEvent as Me;
use crate::events::MdTag;
use crate::events::MdTag as Mt;
use crate::events::MdTagEnd;
use crate::events::MdTagEnd as Mte;
use crate::model::render_spec;
use crate::render::RenderedDoc;
use crate::render::render_events;
use pulldown_cmark::CodeBlockKind as PdKind;
use pulldown_cmark::Event as PdEvent;
use pulldown_cmark::Tag as PdTag;
use pulldown_cmark::TagEnd as PdTagEnd;

verus! {

#[verifier::external_type_specification]
#[verifier::external_body]
pub struct ExEvent<'a>(pulldown_cmark::Event<'a>);

#[verifier::external_type_specification]
#[verifier::external_body]
pub struct ExTag<'a>(pulldown_cmark::Tag<'a>);

#[verifier::external_type_specification]
#[verifier::external_body]
pub struct ExTagEnd(pulldown_cmark::TagEnd);

#[verifier::external_type_specification]
#[verifier::external_body]
pub struct ExCodeBlockKind<'a>(pulldown_cmark::CodeBlockKind<'a>);

#[verifier::external_type_specification]
#[verifier::external_body]
pub struct ExHeadingLevel(pulldown_cmark::HeadingLevel);

#[verifier::external_type_specification]
#[verifier::external_body]
pub struct ExCowStr<'a>(pulldown_cmark::CowStr<'a>);

/// The event stream that the markdown front end produces for a text,
/// with tables, footnotes, strikethrough and task lists enabled.
pub uninterp spec fn events_of(s: Seq<char>) -> Seq<MdEvent>;

/// Relies on pulldown_cmark::CowStr: hands the text out as an owned
/// string.
#[verifier::external_body]
fn cs(s: pulldown_cmark::CowStr<'_>) -> String {
    s.into_string()
}

/// Relies on pulldown_cmark::HeadingLevel: its six levels carry the
/// values 1 through 6.
#[verifier::external_body]
fn conv_level(l: pulldown_cmark::HeadingLevel) -> u8 {
    l as u8
}

/// Relies on pulldown_cmark::CodeBlockKind: a fenced block carries its
/// info string, an indented one carries none.
#[verifier::external_body]
fn conv_kind(k: PdKind<'_>) -> Option<String> {
    match k {
        PdKind::Fenced(s) => Some(s.into_string()),
        PdKind::Indented => None,
    }
}

/// Relies on pulldown_cmark::Tag: each field-free variant the renderer
/// handles is converted by name; the rest go through `conv_tag_data`.
#[verifier::external_body]
fn conv_tag(t: PdTag<'_>) -> MdTag {
    match t {
        PdTag::Paragraph => Mt::Paragraph,
        PdTag::BlockQuote(_) => Mt::BlockQuote,
        PdTag::Item => Mt::Item, PdTag::Emphasis => Mt::Emphasis,
        PdTag::Strong => Mt::Strong, PdTag::Strikethrough => Mt::Strikethrough,
        PdTag::Table(_) => Mt::Table, PdTag::TableRow => Mt::TableRow,
        PdTag::TableCell => Mt::TableCell,
        other => conv_tag_data(other),
    }
}

/// Relies on pulldown_cmark::Tag: each field-carrying variant the
/// renderer handles is converted field for field; the rest collapse to
/// `Other`.
#[verifier::external_body]
fn conv_tag_data(t: PdTag<'_>) -> MdTag {
    match t {
        PdTag::Heading { level, .. } => Mt::Heading { level: conv_level(level) },
        PdTag::CodeBlock(k) => Mt::CodeBlock { lang: conv_kind(k) },
        PdTag::List(s) => Mt::List { start: s },
        PdTag::Link { dest_url, .. } => Mt::Link { dest: dest_url.into_string() },
        PdTag::Image { dest_url, .. } => Mt::Image { dest: dest_url.into_string() },
        PdTag::FootnoteDefinition(s) => Mt::FootnoteDefinition { name: s.into_string() },
        _ => Mt::Other,
    }
}

/// Relies on pulldown_cmark::TagEnd: converted variant for variant;
/// the rest collapse to `Other`.
#[verifier::external_body]
fn conv_tag_end(t: PdTagEnd) -> MdTagEnd {
    match t {
        PdTagEnd::Paragraph => Mte::Paragraph,
        PdTagEnd::Heading(_) => Mte::Heading,
        PdTagEnd::BlockQuote(_) => Mte::BlockQuote,
        PdTagEnd::CodeBlock => Mte::CodeBlock,
        PdTagEnd::List(_) => Mte::List, PdTagEnd::Item => Mte::Item,
        PdTagEnd::Emphasis => Mte::Emphasis, PdTagEnd::Strong => Mte::Strong,
        PdTagEnd::Strikethrough => Mte::Strikethrough,
        PdTagEnd::Link => Mte::Link, PdTagEnd::Image => Mte::Image,
        PdTagEnd::Table => Mte::Table, PdTagEnd::TableRow => Mte::TableRow,
        _ => Mte::Other,
    }
}

/// Relies on pulldown_cmark::Event: each variant is converted field
/// for field into the library's event type.
#[verifier::external_body]
fn conv_event(e: PdEvent<'_>) -> MdEvent {
    match e {
        PdEvent::Start(t) => Me::Start(conv_tag(t)),
        PdEvent::End(t) => Me::End(conv_tag_end(t)),
        PdEvent::Text(s) => Me::Text(cs(s)),
        PdEvent::Code(s) => Me::Code(cs(s)),
        PdEvent::Html(s) => Me::Html(cs(s)),
        PdEvent::InlineHtml(s) => Me::InlineHtml(cs(s)),
        PdEvent::InlineMath(s) => Me::InlineMath(cs(s)),
        PdEvent::DisplayMath(s) => Me::DisplayMath(cs(s)),
        PdEvent::FootnoteReference(s) => Me::FootnoteReference(cs(s)),
        PdEvent::SoftBreak => Me::SoftBreak, PdEvent::HardBreak => Me::HardBreak,
        PdEvent::Rule => Me::Rule,
        PdEvent::TaskListMarker(b) => Me::TaskListMarker(b),
    }
}

/// Relies on pulldown_cmark::Parser::new_ext: the event stream is a
/// function of the input text and the fixed option set alone, and an
/// empty input yields no events.
#[verifier::external_body]
fn parse_events(input: &str) -> (evs: Vec<MdEvent>)
    ensures
        evs@ == events_of(input@),
        input@.len() == 0 ==> evs@.len() == 0,
{
    let mut options = pulldown_cmark::Options::empty();
    options.insert(pulldown_cmark::Options::ENABLE_TABLES);
    options.insert(pulldown_cmark::Options::ENABLE_FOOTNOTES);
    options.insert(pulldown_cmark::Options::ENABLE_STRIKETHROUGH);
    options.insert(pulldown_cmark::Options::ENABLE_TASKLISTS);
    let mut evs = Vec::new();
    for ev in pulldown_cmark::Parser::new_ext(input, options) {
        evs.push(conv_event(ev));
    }
    evs
}

/// Renders a markdown document: one pass over its event stream,
/// producing the display lines and the image references. The output
/// never ends in a blank row, and every image reference is anchored at
/// an existing, non-blank line.
pub fn render_markdown(input: &str) -> (doc: RenderedDoc)
    ensures
        doc@ == render_spec(events_of(input@)),
        doc@.lines.len() > 0,
        doc@.lines.last().len() > 0,
        crate::laws::images_anchored(doc@),
{
    let events = parse_events(input);
    proof {
        crate::laws::lemma_render_trimmed(events_of(input@));
    }
    render_events(&events)
}

} // verus!
