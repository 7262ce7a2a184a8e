//! The document event grammar: the flat stream of structural start/end
//! markers and atomic text-bearing tokens that the renderer consumes.

use vstd::prelude::*;

verus! {

/// A structural element being opened.
#[derive(Clone, Debug)]
pub enum MdTag {
    Paragraph,
    /// A heading with its level, 1 through 6.
    Heading { level: u8 },
    BlockQuote,
    /// A code block; a fenced block carries its raw info string, an
    /// indented one carries none.
    CodeBlock { lang: Option<String> },
    /// A list; an ordered list carries its starting number.
    List { start: Option<u64> },
    Item,
    Emphasis,
    Strong,
    Strikethrough,
    /// A link with its destination.
    Link { dest: String },
    /// An image with its destination.
    Image { dest: String },
    Table,
    TableRow,
    TableCell,
    /// A footnote definition with its label.
    FootnoteDefinition { name: String },
    /// Any structural element the renderer leaves alone.
    Other,
}

/// A structural element being closed.
#[derive(Clone, Copy, Debug, PartialEq, Eq, Structural)]
pub enum MdTagEnd {
    Paragraph,
    Heading,
    BlockQuote,
    CodeBlock,
    List,
    Item,
    Emphasis,
    Strong,
    Strikethrough,
    Link,
    Image,
    Table,
    TableRow,
    Other,
}

/// One event of the document stream.
#[derive(Clone, Debug)]
pub enum MdEvent {
    Start(MdTag),
    End(MdTagEnd),
    /// A plain text node.
    Text(String),
    /// An inline code node.
    Code(String),
    /// A raw HTML block node.
    Html(String),
    /// A raw inline HTML node.
    InlineHtml(String),
    SoftBreak,
    HardBreak,
    Rule,
    /// A task list marker, true when checked.
    TaskListMarker(bool),
    /// A reference to a footnote with the given label.
    FootnoteReference(String),
    /// An inline math environment node.
    InlineMath(String),
    /// A display math environment node.
    DisplayMath(String),
}

} // verus!
