//! Puts the blocks of each page in reading order: top to bottom, and left to
//! right among blocks whose tops lie within 5 points of each other. The sort
//! is stable.
use crate::context::PipelineContext;
use crate::document::Document;
use crate::error::Error;
use crate::processors::DocumentProcessor;
use crate::schema::{Block, BlockV, DocumentV, PageV};
use vstd::prelude::*;

verus! {

pub struct OrderProcessor;

/// Tops closer than this (hundredths of a point) count as one row.
pub const ROW_TOLERANCE: i64 = 500;

/// `a` reads before `b`.
pub open spec fn reads_before(a: BlockV, b: BlockV) -> bool {
    let d = a.bbox.y0 - b.bbox.y0;
    if -ROW_TOLERANCE < d < ROW_TOLERANCE {
        a.bbox.x0 < b.bbox.x0
    } else {
        a.bbox.y0 < b.bbox.y0
    }
}

/// `x` inserted into `s` after the last block that it does not read before.
pub open spec fn insert_in_order(s: Seq<BlockV>, x: BlockV) -> Seq<BlockV>
    decreases s.len(),
{
    if s.len() == 0 || !reads_before(x, s.last()) {
        s.push(x)
    } else {
        insert_in_order(s.drop_last(), x).push(s.last())
    }
}

/// The blocks in reading order, by stable insertion.
pub open spec fn reading_order(bs: Seq<BlockV>) -> Seq<BlockV>
    decreases bs.len(),
{
    if bs.len() == 0 {
        Seq::empty()
    } else {
        insert_in_order(reading_order(bs.drop_last()), bs.last())
    }
}

pub open spec fn order_result(d: DocumentV) -> DocumentV {
    DocumentV {
        pages: d.pages.map_values(|pg: PageV| PageV { blocks: reading_order(pg.blocks), ..pg }),
        ..d
    }
}

fn reads_before_exec(a: &Block, b: &Block) -> (r: bool)
    ensures
        r == reads_before(a@, b@),
{
    let d: i128 = a.bbox.y0 as i128 - b.bbox.y0 as i128;
    if -(ROW_TOLERANCE as i128) < d && d < ROW_TOLERANCE as i128 {
        a.bbox.x0 < b.bbox.x0
    } else {
        a.bbox.y0 < b.bbox.y0
    }
}

proof fn lemma_insert_at(s: Seq<BlockV>, x: BlockV, k: int)
    requires
        0 <= k <= s.len(),
        forall|j: int| k <= j < s.len() ==> reads_before(x, #[trigger] s[j]),
        k == 0 || !reads_before(x, s[k - 1]),
    ensures
        insert_in_order(s, x) == s.insert(k, x),
    decreases s.len(),
{
    if k == s.len() {
        assert(s.push(x) =~= s.insert(k, x));
    } else {
        lemma_insert_at(s.drop_last(), x, k);
        assert(s.drop_last().insert(k, x).push(s.last()) =~= s.insert(k, x));
    }
}

/// Sorts the blocks of one page into reading order.
pub fn order_page_blocks(blocks: Vec<Block>) -> (out: Vec<Block>)
    ensures
        out@.map_values(|b: Block| b@) == reading_order(blocks@.map_values(|b: Block| b@)),
{
    let ghost b0 = blocks@.map_values(|b: Block| b@);
    let ghost bs = blocks@;
    let mut sorted: Vec<Block> = Vec::new();
    for block in it: blocks.into_iter()
        invariant
            it.seq() == bs,
            b0 == bs.map_values(|b: Block| b@),
            sorted@.map_values(|b: Block| b@) == reading_order(b0.take(it.index())),
    {
        assert(b0.take(it.index() + 1).drop_last() =~= b0.take(it.index()));
        assert(b0[it.index()] == block@);
        let ghost sv = sorted@.map_values(|b: Block| b@);
        let mut k = sorted.len();
        while k > 0 && reads_before_exec(&block, &sorted[k - 1])
            invariant
                k <= sorted@.len(),
                sv == sorted@.map_values(|b: Block| b@),
                forall|j: int| k <= j < sv.len() ==> reads_before(block@, #[trigger] sv[j]),
            decreases k,
        {
            k = k - 1;
        }
        proof {
            lemma_insert_at(sv, block@, k as int);
        }
        let ghost bv = block@;
        sorted.insert(k, block);
        assert(sorted@.map_values(|b: Block| b@) =~= sv.insert(k as int, bv));
    }
    assert(b0.take(b0.len() as int) =~= b0);
    sorted
}

impl DocumentProcessor for OrderProcessor {
    open spec fn accepts(&self, d: DocumentV) -> bool {
        true
    }

    open spec fn result(&self, d: DocumentV) -> DocumentV {
        order_result(d)
    }

    fn name(&self) -> (n: &'static str)
        ensures
            n@ == "OrderProcessor"@,
    {
        "OrderProcessor"
    }

    fn process(&self, document: &mut Document, _ctx: &PipelineContext) -> (r: Result<(), Error>) {
        let ghost d0 = document@;
        let n = document.pages.len();
        let mut p: usize = 0;
        while p < n
            invariant
                d0 == old(document)@,
                n == d0.pages.len(),
                p <= n,
                document@.pages.len() == n,
                document@.file_name == d0.file_name,
                document@.metadata == d0.metadata,
                forall|q: int| 0 <= q < p ==> document@.pages[q] == order_result(d0).pages[q],
                forall|q: int| p <= q < n ==> document@.pages[q] == d0.pages[q],
            decreases n - p,
        {
            let ghost before = document.pages@;
            let ghost before_v = document@;
            let mut blocks: Vec<Block> = Vec::new();
            std::mem::swap(&mut blocks, &mut document.pages[p].blocks);
            let ordered = order_page_blocks(blocks);
            document.pages[p].blocks = ordered;
            assert forall|q: int| 0 <= q < n && q != p implies document.pages@[q] == before[q] by {}
            assert forall|q: int| 0 <= q < p + 1 implies document@.pages[q]
                == order_result(d0).pages[q] by {
                if q < p {
                    assert(before_v.pages[q] == before[q]@);
                }
            }
            assert forall|q: int| p + 1 <= q < n implies document@.pages[q] == d0.pages[q] by {
                assert(before_v.pages[q] == before[q]@);
            }
            p = p + 1;
        }
        assert(document@.pages =~= order_result(d0).pages);
        Ok(())
    }
}

} // verus!
