//! The wikitext abstract syntax tree consumed by the renderer.
//!
//! The tree is produced outside the renderer (by a wikitext parser) and is
//! read-only here: the renderer never mutates or re-parses it.

use vstd::prelude::*;

verus! {

/// A parsed wikitext node.
///
/// `Bold`, `Italic` and `BoldItalic` are *toggle* events, not spans: the
/// renderer reconciles a flat run of them into balanced `<b>`/`<i>` tags.
#[derive(Debug)]
pub enum Node {
    /// Plain text, emitted verbatim.
    Text { value: String },
    /// A character entity such as `&lt;`; the character is re-escaped on output.
    CharacterEntity { character: char },
    /// Toggle of bold text (`'''`).
    Bold,
    /// Toggle of italic text (`''`).
    Italic,
    /// Combined toggle of bold and italic text (`'''''`).
    BoldItalic,
    /// Internal link (`[[target|text]]`).
    Link { target: String, text: Vec<Node> },
    /// External link (`[url text]`).
    ExternalLink { nodes: Vec<Node> },
    /// Category assignment (`[[category:target|ordinal]]`).
    Category { target: String, ordinal: Vec<Node> },
    /// Horizontal divider (`----`).
    HorizontalDivider,
    /// Ordered list (`#`).
    OrderedList { items: Vec<ListItem> },
    /// Unordered list (`*`).
    UnorderedList { items: Vec<ListItem> },
    /// Definition list (`;` and `:`).
    DefinitionList { items: Vec<DefinitionListItem> },
    /// An empty line between paragraph-level elements.
    ParagraphBreak,
    /// Preformatted block (lines starting with a space).
    Preformatted { nodes: Vec<Node> },
    /// Heading (`== ... ==`), with its level from 1 to 6.
    Heading { level: u8, nodes: Vec<Node> },
    /// Table (`{| ... |}`).
    Table { attributes: Vec<Node>, captions: Vec<TableCaption>, rows: Vec<TableRow> },
    /// Template transclusion (`{{name|...}}`).
    Template { name: Vec<Node>, parameters: Vec<TemplateParameter> },
    /// Comment (`<!-- ... -->`); emits nothing.
    Comment,
    /// Any other construct the renderer does not handle; emits nothing.
    Other,
}

/// List item of an ordered or unordered list.
#[derive(Debug)]
pub struct ListItem {
    pub nodes: Vec<Node>,
}

/// Identifier for the type of a definition list item.
#[derive(Debug, Clone, Copy, PartialEq, Eq, Structural)]
pub enum DefinitionListItemType {
    /// A term (`;`), rendered as `<dt>`.
    Term,
    /// Details (`:`), rendered as `<dd>`.
    Details,
}

/// Item of a definition list.
#[derive(Debug)]
pub struct DefinitionListItem {
    pub type_: DefinitionListItemType,
    pub nodes: Vec<Node>,
}

/// Caption of a table.
#[derive(Debug)]
pub struct TableCaption {
    pub attributes: Option<Vec<Node>>,
    pub content: Vec<Node>,
}

/// Row of a table.
#[derive(Debug)]
pub struct TableRow {
    pub attributes: Vec<Node>,
    pub cells: Vec<TableCell>,
}

/// Identifier for the type of a table cell.
#[derive(Debug, Clone, Copy, PartialEq, Eq, Structural)]
pub enum TableCellType {
    /// Heading cell (`!`), rendered as `<th>`.
    Heading,
    /// Ordinary cell (`|`), rendered as `<td>`.
    Ordinary,
}

/// Cell of a table row.
#[derive(Debug)]
pub struct TableCell {
    pub attributes: Option<Vec<Node>>,
    pub content: Vec<Node>,
    pub type_: TableCellType,
}

/// Parameter of a template invocation. Carried for completeness; the
/// renderer does not substitute parameters.
#[derive(Debug)]
pub struct TemplateParameter {
    pub name: Option<Vec<Node>>,
    pub value: Vec<Node>,
}

} // verus!
