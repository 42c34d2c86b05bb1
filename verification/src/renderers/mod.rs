//! Renderers: the document tree written out as Markdown or HTML.
pub mod html;
pub mod markdown;

use crate::context::PipelineContext;
use crate::document::Document;
use crate::error::Error;
use crate::schema::DocumentV;
use vstd::prelude::*;

verus! {

/// A writer of a document; `rendered` says what it writes.
pub trait DocumentRenderer {
    type Output;

    spec fn rendered(&self, d: DocumentV, out: Self::Output) -> bool;

    fn render(&self, document: &Document, ctx: &PipelineContext) -> (r: Result<Self::Output, Error>)
        ensures
            r matches Ok(out) && self.rendered(document@, out),
    ;
}

/// Writes the document as JSON; the serialization itself is done by the
/// application, which owns the serializable copy of the tree.
pub struct JsonRenderer;

} // verus!
