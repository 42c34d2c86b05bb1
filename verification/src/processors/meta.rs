//! Processors that annotate a document without changing its pages: the
//! language-model metadata pass, block relabelling, and the debug report.
use crate::context::PipelineContext;
use crate::document::Document;
use crate::error::Error;
use crate::processors::DocumentProcessor;
use crate::schema::{DocumentV, PageV};
use crate::text::{append_str, decimal, from_str, push_decimal};
use vstd::prelude::*;

verus! {

/// Marks the document as seen by the language-model metadata pass.
pub struct LlmSimpleMetaProcessor;

pub open spec fn llm_meta_result(d: DocumentV) -> DocumentV {
    DocumentV { metadata: d.metadata.insert("llm_meta_processed"@, "true"@), ..d }
}

impl DocumentProcessor for LlmSimpleMetaProcessor {
    open spec fn accepts(&self, d: DocumentV) -> bool {
        true
    }

    open spec fn result(&self, d: DocumentV) -> DocumentV {
        llm_meta_result(d)
    }

    fn name(&self) -> (n: &'static str)
        ensures
            n@ == "LlmSimpleMetaProcessor"@,
    {
        "LlmSimpleMetaProcessor"
    }

    fn process(&self, document: &mut Document, _ctx: &PipelineContext) -> (r: Result<(), Error>) {
        document.metadata.insert(from_str("llm_meta_processed"), from_str("true"));
        Ok(())
    }
}

/// A relabelling pass over text blocks; no rule relabels a block yet, so
/// the document is left as it is.
pub struct BlockRelabelProcessor;

impl DocumentProcessor for BlockRelabelProcessor {
    open spec fn accepts(&self, d: DocumentV) -> bool {
        true
    }

    open spec fn result(&self, d: DocumentV) -> DocumentV {
        d
    }

    fn name(&self) -> (n: &'static str)
        ensures
            n@ == "BlockRelabelProcessor"@,
    {
        "BlockRelabelProcessor"
    }

    fn process(&self, document: &mut Document, _ctx: &PipelineContext) -> (r: Result<(), Error>) {
        Ok(())
    }
}

/// Reports the shape of a document: its page count and each page's block
/// count.
pub struct DebugProcessor;

/// The report's first line.
pub open spec fn debug_header(d: DocumentV) -> Seq<char> {
    "[DEBUG] Document '"@ + d.file_name + "' has "@ + decimal(d.pages.len()) + " pages"@
}

/// The report's line for a page.
pub open spec fn debug_page_line(pg: PageV) -> Seq<char> {
    "  - Page "@ + decimal(pg.index as nat) + " has "@ + decimal(pg.blocks.len()) + " blocks"@
}

impl DebugProcessor {
    pub fn name(&self) -> (n: &'static str)
        ensures
            n@ == "DebugProcessor"@,
    {
        "DebugProcessor"
    }

    /// The lines of the report: the header, then one line per page.
    pub fn report(&self, document: &Document) -> (lines: Vec<String>)
        ensures
            lines@.len() == document@.pages.len() + 1,
            lines@[0]@ == debug_header(document@),
            forall|p: int|
                0 <= p < document@.pages.len() ==> #[trigger] lines@[p + 1]@ == debug_page_line(
                    document@.pages[p],
                ),
    {
        let mut lines: Vec<String> = Vec::new();
        let mut head = from_str("[DEBUG] Document '");
        append_str(&mut head, document.file_name.as_str());
        append_str(&mut head, "' has ");
        push_decimal(&mut head, document.pages.len() as u128);
        append_str(&mut head, " pages");
        lines.push(head);
        let mut p: usize = 0;
        while p < document.pages.len()
            invariant
                p <= document@.pages.len(),
                lines@.len() == p + 1,
                lines@[0]@ == debug_header(document@),
                forall|q: int|
                    0 <= q < p ==> #[trigger] lines@[q + 1]@ == debug_page_line(document@.pages[q]),
            decreases document@.pages.len() - p,
        {
            let page = &document.pages[p];
            let mut line = from_str("  - Page ");
            push_decimal(&mut line, page.index as u128);
            append_str(&mut line, " has ");
            push_decimal(&mut line, page.blocks.len() as u128);
            append_str(&mut line, " blocks");
            lines.push(line);
            p = p + 1;
        }
        lines
    }
}

} // verus!
