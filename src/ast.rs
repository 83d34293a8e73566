//! The document tree that the renderer walks.

use vstd::prelude::*;

verus! {

/// A leaf token of paragraph text.
#[derive(Debug, Clone, PartialEq, Eq)]
pub enum Token {
    Whitespace,
    Text(String),
    Special(char),
    Escape(char),
}

/// Where a link points.
#[derive(Debug)]
pub enum LinkTarget {
    Url(String),
    Heading { title: Vec<Segment> },
    Footnote,
    Definition,
    Path,
    Timestamp,
    Generic,
    Extendable,
    Wiki,
}

/// An inline piece of paragraph content.
#[derive(Debug)]
pub enum Segment {
    Token(Token),
    /// Text wrapped in an attached modifier such as `*bold*`; `marker` is its character.
    Modifier { marker: char, content: Vec<Segment> },
    Link { targets: Vec<LinkTarget>, description: Option<Vec<Segment>>, filepath: Option<String> },
    Anchor { content: Vec<Segment> },
    InlineVerbatim(Vec<Token>),
    /// A segment kind the renderer does not support; it renders as nothing.
    Unsupported,
}

/// The kind of a list or quote item.
#[derive(Debug, Clone, Copy, PartialEq, Eq, Structural)]
pub enum NestableKind {
    UnorderedList,
    OrderedList,
    Quote,
}

/// The kind of a titled block with a flat body.
#[derive(Debug, Clone, Copy, PartialEq, Eq, Structural)]
pub enum RangeableKind {
    Definition,
    Footnote,
    Table,
}

/// The kind of a horizontal delimiter.
#[derive(Debug, Clone, Copy, PartialEq, Eq, Structural)]
pub enum DelimiterKind {
    Weak,
    Strong,
    HorizontalRule,
}

/// The state of a to-do item.
#[derive(Debug, Clone, PartialEq, Eq)]
pub enum TodoStatus {
    Undone,
    Done,
    NeedsClarification,
    Paused,
    Urgent,
    Pending,
    Canceled,
    Recurring(Option<String>),
}

/// An extension attached to a list or quote item.
#[derive(Debug, Clone, PartialEq, Eq)]
pub enum Extension {
    Todo(TodoStatus),
    Priority(String),
    Timestamp(String),
    DueDate(String),
    StartDate(String),
}

/// A node that holds no nested nodes: the text of an item or a line of a block body.
#[derive(Debug)]
pub enum FlatNode {
    Paragraph(Vec<Segment>),
    /// Any other flat node; item texts and block bodies of this shape render as nothing.
    Other,
}

/// A node of the document tree.
#[derive(Debug)]
pub enum Node {
    Heading { level: u16, title: Vec<Segment>, content: Vec<Node> },
    Paragraph(Vec<Segment>),
    /// One list or quote item; consecutive items of one kind form one group.
    Nestable { kind: NestableKind, text: FlatNode, extensions: Vec<Extension> },
    Rangeable { kind: RangeableKind, title: Vec<Segment>, content: Vec<FlatNode> },
    /// A tagged raw block such as `@code`; `name` is the dot path of its tag.
    Verbatim { name: Vec<String>, parameters: Vec<String>, content: String },
    Delimiter(DelimiterKind),
    /// A tag kind the renderer does not support; it contributes nothing.
    Unsupported,
}

} // verus!
