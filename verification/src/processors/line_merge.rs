//! Merges vertically adjacent blocks of the same kind: text blocks are
//! joined with a space, table blocks with a line break (and a header
//! separator after a one-line table).
use crate::context::PipelineContext;
use crate::document::Document;
use crate::error::Error;
use crate::processors::DocumentProcessor;
use crate::schema::{Block, BlockType, BlockV, DocumentV, PageV};
use crate::text::{
    append_str, chars_of, count_char, count_char_exec, line_count, line_count_exec, push_char, trim,
    trim_seq,
};
use vstd::prelude::*;

verus! {

pub struct LineMergeProcessor;

/// The largest vertical gap between merged blocks, in hundredths of a
/// point (exclusive).
pub const MAX_LINE_GAP: i64 = 1800;

pub open spec fn abs_int(x: int) -> int {
    if x < 0 {
        -x
    } else {
        x
    }
}

/// Block `b`, which follows `cur`, continues it: same kind (text or table),
/// close below it, and overlapping it horizontally.
pub open spec fn can_merge(cur: BlockV, b: BlockV) -> bool {
    &&& cur.block_type == b.block_type
    &&& (cur.block_type == BlockType::Text || cur.block_type == BlockType::Table)
    &&& abs_int(cur.bbox.y0 - b.bbox.y1) < MAX_LINE_GAP
    &&& cur.bbox.x0 < b.bbox.x1
    &&& cur.bbox.x1 > b.bbox.x0
}

/// The Markdown header separator of a table with `cols` columns.
pub open spec fn table_separator(cols: nat) -> Seq<char>
    decreases cols,
{
    if cols == 0 {
        "|"@
    } else {
        table_separator((cols - 1) as nat) + " --- |"@
    }
}

/// The number of columns of a one-line table row: one fewer than its bars,
/// and never below zero.
pub open spec fn column_count(text: Seq<char>) -> nat {
    if count_char(text, '|') >= 1 {
        (count_char(text, '|') - 1) as nat
    } else {
        0
    }
}

pub open spec fn merged_text(cur: BlockV, b: BlockV) -> Seq<char> {
    if cur.block_type == BlockType::Table {
        if line_count(cur.text) == 1 {
            trim_seq(cur.text) + "\n"@ + table_separator(column_count(cur.text)) + "\n"@ + trim_seq(
                b.text,
            )
        } else {
            trim_seq(cur.text) + "\n"@ + trim_seq(b.text)
        }
    } else {
        trim_seq(cur.text) + " "@ + trim_seq(b.text)
    }
}

/// `cur` with `b` merged into it.
pub open spec fn merge_two(cur: BlockV, b: BlockV) -> BlockV {
    BlockV {
        text: merged_text(cur, b),
        bbox: cur.bbox.union(b.bbox),
        lines: cur.lines + b.lines,
        ..cur
    }
}

/// After the blocks `bs`: the finished blocks, and the block still open.
pub open spec fn merge_state(bs: Seq<BlockV>) -> (Seq<BlockV>, Option<BlockV>)
    decreases bs.len(),
{
    if bs.len() == 0 {
        (Seq::empty(), None)
    } else {
        let (done, cur) = merge_state(bs.drop_last());
        let b = bs.last();
        match cur {
            None => (done, Some(b)),
            Some(c) => if can_merge(c, b) {
                (done, Some(merge_two(c, b)))
            } else {
                (done.push(c), Some(b))
            },
        }
    }
}

/// The blocks of a page after merging.
pub open spec fn merge_blocks_seq(bs: Seq<BlockV>) -> Seq<BlockV> {
    let (done, cur) = merge_state(bs);
    match cur {
        Some(c) => done.push(c),
        None => done,
    }
}

pub open spec fn line_merge_result(d: DocumentV) -> DocumentV {
    DocumentV {
        pages: d.pages.map_values(
            |pg: PageV| PageV { blocks: merge_blocks_seq(pg.blocks), ..pg },
        ),
        ..d
    }
}

fn mergeable(cur: &Block, b: &Block) -> (r: bool)
    ensures
        r == can_merge(cur@, b@),
{
    let gap: i128 = cur.bbox.y0 as i128 - b.bbox.y1 as i128;
    let abs_gap: i128 = if gap < 0 { -gap } else { gap };
    cur.block_type == b.block_type && (cur.block_type == BlockType::Text || cur.block_type
        == BlockType::Table) && abs_gap < MAX_LINE_GAP as i128 && cur.bbox.x0 < b.bbox.x1
        && cur.bbox.x1 > b.bbox.x0
}

fn separator(cols: usize) -> (s: String)
    ensures
        s@ == table_separator(cols as nat),
{
    let mut s = crate::text::from_str("|");
    let mut k: usize = 0;
    while k < cols
        invariant
            k <= cols,
            s@ == table_separator(k as nat),
        decreases cols - k,
    {
        append_str(&mut s, " --- |");
        k = k + 1;
    }
    s
}

fn merge_pair(cur: Block, b: Block) -> (m: Block)
    ensures
        m@ == merge_two(cur@, b@),
{
    let ghost cv = cur@;
    let ghost bv = b@;
    let Block { id, bbox, block_type, text, mut lines } = cur;
    let Block { bbox: bbox2, text: text2, lines: mut lines2, .. } = b;
    let mut new_text = trim(text.as_str());
    if block_type == BlockType::Table {
        let chars = chars_of(text.as_str());
        if line_count_exec(&chars) == 1 {
            let bars = count_char_exec(&chars, '|');
            let cols = if bars >= 1 {
                bars - 1
            } else {
                0
            };
            let sep = separator(cols);
            push_char(&mut new_text, '\n');
            append_str(&mut new_text, sep.as_str());
            push_char(&mut new_text, '\n');
        } else {
            push_char(&mut new_text, '\n');
        }
    } else {
        push_char(&mut new_text, ' ');
    }
    let tail = trim(text2.as_str());
    append_str(&mut new_text, tail.as_str());
    let new_bbox = bbox.merge(&bbox2);
    lines.append(&mut lines2);
    proof {
        reveal_strlit("\n");
        reveal_strlit(" ");
    }
    let m = Block { id, bbox: new_bbox, block_type, text: new_text, lines };
    assert(m@.text =~= merged_text(cv, bv));
    assert(m@.lines =~= cv.lines + bv.lines);
    m
}

/// Merges the blocks of one page, in order.
pub fn merge_page_blocks(blocks: Vec<Block>) -> (out: Vec<Block>)
    ensures
        out@.map_values(|b: Block| b@) == merge_blocks_seq(blocks@.map_values(|b: Block| b@)),
{
    let ghost b0 = blocks@.map_values(|b: Block| b@);
    let mut merged: Vec<Block> = Vec::new();
    let mut current: Option<Block> = None;
    let ghost bs = blocks@;
    for block in it: blocks.into_iter()
        invariant
            it.seq() == bs,
            b0 == bs.map_values(|b: Block| b@),
            merge_state(b0.take(it.index())) == (
                merged@.map_values(|b: Block| b@),
                match current {
                    Some(c) => Some(c@),
                    None => None::<BlockV>,
                },
            ),
    {
        assert(b0.take(it.index() + 1).drop_last() =~= b0.take(it.index()));
        assert(b0[it.index()] == block@);
        let ghost merged_before = merged@.map_values(|b: Block| b@);
        match current {
            Some(curr) => {
                if mergeable(&curr, &block) {
                    current = Some(merge_pair(curr, block));
                } else {
                    merged.push(curr);
                    assert(merged@.map_values(|b: Block| b@) =~= merged_before.push(
                        merged@[merged@.len() - 1]@,
                    ));
                    current = Some(block);
                }
            },
            None => {
                current = Some(block);
            },
        }
    }
    assert(b0.take(b0.len() as int) =~= b0);
    match current {
        Some(c) => {
            let ghost before = merged@.map_values(|b: Block| b@);
            merged.push(c);
            assert(merged@.map_values(|b: Block| b@) =~= before.push(merged@[merged@.len() - 1]@));
        },
        None => {},
    }
    merged
}

impl DocumentProcessor for LineMergeProcessor {
    open spec fn accepts(&self, d: DocumentV) -> bool {
        true
    }

    open spec fn result(&self, d: DocumentV) -> DocumentV {
        line_merge_result(d)
    }

    fn name(&self) -> (n: &'static str)
        ensures
            n@ == "LineMergeProcessor"@,
    {
        "LineMergeProcessor"
    }

    fn process(&self, document: &mut Document, _ctx: &PipelineContext) -> (r: Result<(), Error>) {
        let ghost d0 = document@;
        let n = document.pages.len();
        let mut p: usize = 0;
        while p < n
            invariant
                d0 == old(document)@,
                n == d0.pages.len(),
                p <= n,
                document@.pages.len() == n,
                document@.file_name == d0.file_name,
                document@.metadata == d0.metadata,
                forall|q: int| 0 <= q < p ==> document@.pages[q] == line_merge_result(d0).pages[q],
                forall|q: int| p <= q < n ==> document@.pages[q] == d0.pages[q],
            decreases n - p,
        {
            let ghost before = document.pages@;
            let ghost before_v = document@;
            let mut blocks: Vec<Block> = Vec::new();
            std::mem::swap(&mut blocks, &mut document.pages[p].blocks);
            let merged = merge_page_blocks(blocks);
            document.pages[p].blocks = merged;
            assert forall|q: int| 0 <= q < n && q != p implies document.pages@[q] == before[q] by {}
            assert forall|q: int| 0 <= q < p + 1 implies document@.pages[q]
                == line_merge_result(d0).pages[q] by {
                if q < p {
                    assert(before_v.pages[q] == before[q]@);
                }
            }
            assert forall|q: int| p + 1 <= q < n implies document@.pages[q] == d0.pages[q] by {
                assert(before_v.pages[q] == before[q]@);
            }
            p = p + 1;
        }
        assert(document@.pages =~= line_merge_result(d0).pages);
        Ok(())
    }
}

} // verus!
