use vstd::prelude::*;
use crate::pom::content::{ContentContext, ContentKind};
use crate::pom::xml::XmlName;

verus! {

/// Failures while building a document.
#[derive(Debug, Clone, PartialEq, Eq)]
#[allow(inconsistent_fields)]
pub enum PomError {
    InvalidXmlName { value: String },
    DuplicateXmlAttribute { name: XmlName },
    InvalidHeadingLevel { value: u8 },
    WrongContentContext { expected: ContentContext, actual: ContentKind },
    InvalidInlineNewline { value: String },
}

} // verus!
