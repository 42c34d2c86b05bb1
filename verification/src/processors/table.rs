//! Detects table rows: a text block whose first line has two or more spans,
//! each at least 8 points to the right of the one before; the row is
//! rewritten as a Markdown table row.
use crate::context::PipelineContext;
use crate::document::Document;
use crate::error::Error;
use crate::processors::{apply_to_blocks, map_blocks, BlockRule, DocumentProcessor};
use crate::schema::{Block, BlockType, BlockV, DocumentV, SpanV};
use crate::text::{append_str, from_str, trim, trim_end, trim_end_seq, trim_seq};
use vstd::prelude::*;

verus! {

pub struct TableProcessor;

/// The least horizontal gap between cells, in hundredths of a point.
pub const MIN_CELL_GAP: i64 = 800;

/// Each span begins at least `MIN_CELL_GAP` to the right of where the one
/// before it ends.
pub open spec fn spans_form_row(spans: Seq<SpanV>) -> bool {
    &&& spans.len() >= 2
    &&& forall|i: int|
        0 <= i < spans.len() - 1 ==> spans[i + 1].bbox.x0 - spans[i].bbox.x1 >= MIN_CELL_GAP
}

/// Each span's trimmed text followed by `" | "`.
pub open spec fn row_cells(spans: Seq<SpanV>) -> Seq<char>
    decreases spans.len(),
{
    if spans.len() == 0 {
        Seq::empty()
    } else {
        row_cells(spans.drop_last()) + trim_seq(spans.last().text) + " | "@
    }
}

/// The Markdown row of the spans.
pub open spec fn table_row(spans: Seq<SpanV>) -> Seq<char> {
    trim_end_seq("| "@ + row_cells(spans))
}

pub open spec fn table_rule(b: BlockV) -> BlockV {
    if b.block_type == BlockType::Text && b.lines.len() > 0 && spans_form_row(b.lines[0].spans) {
        BlockV { block_type: BlockType::Table, text: table_row(b.lines[0].spans), ..b }
    } else {
        b
    }
}

pub open spec fn table_result(d: DocumentV) -> DocumentV {
    map_blocks(d, |b: BlockV| table_rule(b))
}

impl BlockRule for TableProcessor {
    open spec fn admits(&self, b: BlockV) -> bool {
        true
    }

    open spec fn rule(&self, b: BlockV) -> BlockV {
        table_rule(b)
    }

    fn apply(&self, block: &mut Block) {
        if block.block_type != BlockType::Text {
            return ;
        }
        if block.lines.len() == 0 {
            return ;
        }
        let ghost spans = block@.lines[0].spans;
        let ghost bv = block@;
        let line = &block.lines[0];
        if line.spans.len() < 2 {
            return ;
        }
        let mut i: usize = 0;
        while i < line.spans.len() - 1
            invariant
                spans == line@.spans,
                bv == block@,
                bv.lines.len() > 0,
                spans == bv.lines[0].spans,
                spans.len() >= 2,
                i <= spans.len() - 1,
                forall|j: int| 0 <= j < i ==> spans[j + 1].bbox.x0 - spans[j].bbox.x1 >= MIN_CELL_GAP,
            decreases spans.len() - 1 - i,
        {
            let gap: i128 = line.spans[i + 1].bbox.x0 as i128 - line.spans[i].bbox.x1 as i128;
            if gap < MIN_CELL_GAP as i128 {
                assert(spans[i as int + 1].bbox.x0 - spans[i as int].bbox.x1 < MIN_CELL_GAP);
                assert(!spans_form_row(spans));
                return ;
            }
            i = i + 1;
        }
        let mut row = from_str("| ");
        let mut k: usize = 0;
        while k < line.spans.len()
            invariant
                spans == line@.spans,
                k <= spans.len(),
                row@ == "| "@ + row_cells(spans.take(k as int)),
            decreases spans.len() - k,
        {
            assert(spans.take(k + 1).drop_last() =~= spans.take(k as int));
            let cell = trim(line.spans[k].text.as_str());
            append_str(&mut row, cell.as_str());
            append_str(&mut row, " | ");
            assert(row@ =~= "| "@ + row_cells(spans.take(k + 1)));
            k = k + 1;
        }
        assert(spans.take(spans.len() as int) =~= spans);
        let text = trim_end(row.as_str());
        block.block_type = BlockType::Table;
        block.text = text;
    }
}

impl DocumentProcessor for TableProcessor {
    open spec fn accepts(&self, d: DocumentV) -> bool {
        true
    }

    open spec fn result(&self, d: DocumentV) -> DocumentV {
        table_result(d)
    }

    fn name(&self) -> (n: &'static str)
        ensures
            n@ == "TableProcessor"@,
    {
        "TableProcessor"
    }

    fn process(&self, document: &mut Document, _ctx: &PipelineContext) -> (r: Result<(), Error>) {
        apply_to_blocks(self, document);
        assert((|b: BlockV| self.rule(b)) =~= (|b: BlockV| table_rule(b)));
        Ok(())
    }
}

} // verus!
