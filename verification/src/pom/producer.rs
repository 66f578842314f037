use vstd::prelude::*;
use crate::pom::document::Document;
use crate::pom::error::PomError;

verus! {

/// Builds a complete, unresolved document from prompt-facing Rust data.
///
/// A producer only owns the step from a Rust value to a document. It must not
/// resolve diff slots, inspect session state, or render prompt text.
pub trait DocumentProducer {
    fn build_document(&self) -> Result<Document, PomError>;
}

} // verus!
