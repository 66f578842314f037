//! The prompt object model: documents of text, Markdown and XML.

pub mod builder;
pub mod children;
pub mod content;
pub mod diff_slot;
pub mod document;
pub mod equivalence;
pub mod error;
pub mod markdown;
pub mod model;
pub mod producer;
pub mod text;
pub mod xml;

pub use builder::{BlockBuilder, InlineBuilder, ListBuilder, MixedBuilder};
pub use children::{BlockChildren, InlineChildren, MixedChildren};
pub use content::{
    BlockContent, ContentContext, ContentKind, ContentNode, ContentRef, InlineContent, MarkdownKind,
    MixedContent,
};
pub use diff_slot::{DiffSlot, DiffSlotMismatch, DiffStrategy};
pub use document::{Document, ResolvedDocument};
pub use error::PomError;
pub use markdown::{
    CodeBlockNode, CodeSpanNode, HeadingLevel, HeadingNode, ListItem, ListKind, ListNode,
    MarkdownNode, ParagraphNode, StrongNode,
};
pub use producer::DocumentProducer;
pub use text::{RawTextNode, TextNode};
pub use xml::{XmlAttribute, XmlAttributes, XmlName, XmlNode};
