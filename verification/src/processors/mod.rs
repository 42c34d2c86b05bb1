//! Processors: passes that refine the document tree in place.
pub mod equation;
pub mod heading;
pub mod line_merge;
pub mod list;
pub mod meta;
pub mod order;
pub mod table;
pub mod table_merge;
pub mod toc;

use crate::context::PipelineContext;
use crate::document::Document;
use crate::error::Error;
use crate::schema::{BlockV, DocumentV, PageV, Block};
use vstd::prelude::*;

verus! {

/// A pass over a document. `accepts` is what the pass needs of the document
/// and `result` is what it makes of it.
pub trait DocumentProcessor {
    spec fn accepts(&self, d: DocumentV) -> bool;

    spec fn result(&self, d: DocumentV) -> DocumentV;

    fn name(&self) -> &'static str;

    fn process(&self, document: &mut Document, ctx: &PipelineContext) -> (r: Result<(), Error>)
        requires
            self.accepts(old(document)@),
        ensures
            r is Ok,
            final(document)@ == self.result(old(document)@),
    ;
}

/// A rewrite of one block at a time.
pub trait BlockRule {
    spec fn admits(&self, b: BlockV) -> bool;

    spec fn rule(&self, b: BlockV) -> BlockV;

    fn apply(&self, block: &mut Block)
        requires
            self.admits(old(block)@),
        ensures
            final(block)@ == self.rule(old(block)@),
    ;
}

/// The page with `f` applied to each block.
pub open spec fn map_page_blocks(pg: PageV, f: spec_fn(BlockV) -> BlockV) -> PageV {
    PageV { blocks: pg.blocks.map_values(f), ..pg }
}

/// The document with `f` applied to each block of each page.
pub open spec fn map_blocks(d: DocumentV, f: spec_fn(BlockV) -> BlockV) -> DocumentV {
    DocumentV { pages: d.pages.map_values(|pg: PageV| map_page_blocks(pg, f)), ..d }
}

/// Every block of the document satisfies `p`.
pub open spec fn all_blocks(d: DocumentV, p: spec_fn(BlockV) -> bool) -> bool {
    forall|q: int, i: int|
        0 <= q < d.pages.len() && 0 <= i < d.pages[q].blocks.len() ==> p(
            #[trigger] d.pages[q].blocks[i],
        )
}

/// Applies a block rule to each block of a list.
pub fn apply_to_list<R: BlockRule>(rule: &R, blocks: &mut Vec<Block>)
    requires
        forall|j: int| 0 <= j < old(blocks)@.len() ==> rule.admits(#[trigger] old(blocks)@[j]@),
    ensures
        final(blocks)@.map_values(|b: Block| b@) == old(blocks)@.map_values(|b: Block| b@).map_values(
            |b: BlockV| rule.rule(b),
        ),
{
    let ghost b0 = blocks@.map_values(|b: Block| b@);
    let m = blocks.len();
    let mut i: usize = 0;
    while i < m
        invariant
            b0 == old(blocks)@.map_values(|b: Block| b@),
            forall|j: int| 0 <= j < m ==> rule.admits(#[trigger] b0[j]),
            m == b0.len(),
            i <= m,
            blocks@.len() == m,
            forall|j: int| 0 <= j < i ==> blocks@[j]@ == rule.rule(b0[j]),
            forall|j: int| i <= j < m ==> blocks@[j]@ == b0[j],
        decreases m - i,
    {
        assert(rule.admits(b0[i as int]));
        rule.apply(&mut blocks[i]);
        i = i + 1;
    }
    assert(blocks@.map_values(|b: Block| b@) =~= b0.map_values(|b: BlockV| rule.rule(b)));
}

/// Applies a block rule to every block of the document, page by page and
/// block by block.
pub fn apply_to_blocks<R: BlockRule>(rule: &R, document: &mut Document)
    requires
        all_blocks(old(document)@, |b: BlockV| rule.admits(b)),
    ensures
        final(document)@ == map_blocks(old(document)@, |b: BlockV| rule.rule(b)),
{
    let ghost d0 = document@;
    let ghost f = |b: BlockV| rule.rule(b);
    let n = document.pages.len();
    let mut p: usize = 0;
    while p < n
        invariant
            d0 == old(document)@,
            f == (|b: BlockV| rule.rule(b)),
            all_blocks(d0, |b: BlockV| rule.admits(b)),
            n == d0.pages.len(),
            p <= n,
            document@.pages.len() == n,
            document@.file_name == d0.file_name,
            document@.metadata == d0.metadata,
            forall|q: int| 0 <= q < p ==> document@.pages[q] == map_page_blocks(d0.pages[q], f),
            forall|q: int| p <= q < n ==> document@.pages[q] == d0.pages[q],
        decreases n - p,
    {
        let ghost before = document.pages@;
        let ghost before_v = document@;
        let mut blocks: Vec<Block> = Vec::new();
        std::mem::swap(&mut blocks, &mut document.pages[p].blocks);
        assert(blocks@.map_values(|b: Block| b@) == d0.pages[p as int].blocks);
        assert forall|j: int| 0 <= j < blocks@.len() implies rule.admits(#[trigger] blocks@[j]@) by {
            assert(blocks@[j]@ == d0.pages[p as int].blocks[j]);
        }
        apply_to_list(rule, &mut blocks);
        document.pages[p].blocks = blocks;
        assert forall|q: int| 0 <= q < n && q != p implies document.pages@[q] == before[q] by {}
        assert(document@.pages[p as int] == map_page_blocks(d0.pages[p as int], f)) by {
            assert(document@.pages[p as int].blocks =~= d0.pages[p as int].blocks.map_values(f));
        }
        assert forall|q: int| 0 <= q < p + 1 implies document@.pages[q] == map_page_blocks(
            d0.pages[q],
            f,
        ) by {
            if q < p {
                assert(document.pages@[q] == before[q]);
                assert(before_v.pages[q] == before[q]@);
            }
        }
        assert forall|q: int| p + 1 <= q < n implies document@.pages[q] == d0.pages[q] by {
            assert(document.pages@[q] == before[q]);
            assert(before_v.pages[q] == before[q]@);
        }
        p = p + 1;
    }
    assert(document@.pages =~= map_blocks(d0, f).pages);
}

} // verus!
