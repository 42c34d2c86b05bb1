//! Marks display equations: blocks whose trimmed text is wrapped in `$$…$$`
//! or `\[…\]`.
use crate::context::PipelineContext;
use crate::document::Document;
use crate::error::Error;
use crate::processors::{apply_to_blocks, map_blocks, BlockRule, DocumentProcessor};
use crate::schema::{Block, BlockType, BlockV, DocumentV};
use crate::text::{chars_of, ends_with, seq_ends_with, seq_starts_with, starts_with, trim, trim_seq};
use vstd::prelude::*;

verus! {

pub struct EquationProcessor;

/// The text, trimmed, is a display equation. (For a text that begins and
/// ends with these two-byte markers, its length in characters exceeds four
/// exactly when its length in bytes does.)
pub open spec fn is_display_equation(text: Seq<char>) -> bool {
    let t = trim_seq(text);
    ||| seq_starts_with(t, "$$"@) && seq_ends_with(t, "$$"@) && t.len() > 4
    ||| seq_starts_with(t, "\\["@) && seq_ends_with(t, "\\]"@) && t.len() > 4
}

pub open spec fn equation_rule(b: BlockV) -> BlockV {
    if is_display_equation(b.text) {
        BlockV { block_type: BlockType::Equation, ..b }
    } else {
        b
    }
}

pub open spec fn equation_result(d: DocumentV) -> DocumentV {
    map_blocks(d, |b: BlockV| equation_rule(b))
}

impl BlockRule for EquationProcessor {
    open spec fn admits(&self, b: BlockV) -> bool {
        true
    }

    open spec fn rule(&self, b: BlockV) -> BlockV {
        equation_rule(b)
    }

    fn apply(&self, block: &mut Block) {
        let t = chars_of(trim(block.text.as_str()).as_str());
        let is_eq = (starts_with(&t, "$$") && ends_with(&t, "$$") && t.len() > 4) || (starts_with(
            &t,
            "\\[",
        ) && ends_with(&t, "\\]") && t.len() > 4);
        if is_eq {
            block.block_type = BlockType::Equation;
        }
    }
}

impl DocumentProcessor for EquationProcessor {
    open spec fn accepts(&self, d: DocumentV) -> bool {
        true
    }

    open spec fn result(&self, d: DocumentV) -> DocumentV {
        equation_result(d)
    }

    fn name(&self) -> (n: &'static str)
        ensures
            n@ == "EquationProcessor"@,
    {
        "EquationProcessor"
    }

    fn process(&self, document: &mut Document, _ctx: &PipelineContext) -> (r: Result<(), Error>) {
        apply_to_blocks(self, document);
        assert((|b: BlockV| self.rule(b)) =~= (|b: BlockV| equation_rule(b)));
        Ok(())
    }
}

} // verus!
