//! The Markdown document tree that the Typst generator reads.
use vstd::prelude::*;

verus! {

/// A node of a parsed Markdown document.
#[derive(Debug)]
pub enum MdNode {
    /// The whole document.
    Document(Vec<MdNode>),
    /// A heading with its level (1 to 6).
    Heading(u8, Vec<MdNode>),
    Paragraph(Vec<MdNode>),
    Text(String),
    SoftBreak,
    LineBreak,
    Strong(Vec<MdNode>),
    Emph(Vec<MdNode>),
    Strikethrough(Vec<MdNode>),
    /// Inline code with its literal text.
    Code(String),
    /// A code block with its info string and its literal text.
    CodeBlock(String, String),
    BlockQuote(Vec<MdNode>),
    /// A list, ordered or not, with its items.
    List(bool, Vec<MdNode>),
    Item(Vec<MdNode>),
    /// A task-list item, checked or not.
    TaskItem(bool, Vec<MdNode>),
    /// A link with its destination.
    Link(String, Vec<MdNode>),
    /// An image with its source; its children are the alternative text.
    Image(String, Vec<MdNode>),
    ThematicBreak,
    HtmlBlock(String),
    HtmlInline(String),
    /// A table with its rows.
    Table(Vec<MdNode>),
    /// A table row, the header row or not, with its cells.
    TableRow(bool, Vec<MdNode>),
    TableCell(Vec<MdNode>),
    /// A footnote definition with its label.
    FootnoteDefinition(String, Vec<MdNode>),
    /// A footnote reference with its label.
    FootnoteReference(String),
    /// Math, display or inline, with its literal text.
    Math(bool, String),
    /// Any other node: only its children are rendered.
    Other(Vec<MdNode>),
}

} // verus!
