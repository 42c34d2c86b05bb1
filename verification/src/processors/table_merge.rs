//! Joins a table that runs across a page break: when a page ends with a
//! table block and the next page begins with one, the second is appended to
//! the first and emptied.
use crate::context::PipelineContext;
use crate::document::Document;
use crate::error::Error;
use crate::processors::DocumentProcessor;
use crate::schema::{BlockType, BlockV, DocumentV, Line, PageV};
use crate::text::append_str;
use vstd::prelude::*;

verus! {

pub struct TableMergeProcessor;

/// Page `i` ends with a table block and page `i + 1` begins with one.
pub open spec fn table_continues(pages: Seq<PageV>, i: int) -> bool {
    &&& pages[i].blocks.len() > 0
    &&& pages[i].blocks.last().block_type == BlockType::Table
    &&& pages[i + 1].blocks.len() > 0
    &&& pages[i + 1].blocks[0].block_type == BlockType::Table
}

/// The pages after joining the table at the break between page `i` and
/// page `i + 1`, if one runs across it.
pub open spec fn merge_at(pages: Seq<PageV>, i: int) -> Seq<PageV> {
    if table_continues(pages, i) {
        let a = pages[i];
        let b = pages[i + 1];
        let prev = a.blocks.last();
        let next = b.blocks[0];
        let joined = BlockV { text: prev.text + "\n"@ + next.text, lines: prev.lines + next.lines, ..prev };
        let emptied = BlockV {
            block_type: BlockType::Unknown,
            text: Seq::empty(),
            lines: Seq::empty(),
            ..next
        };
        pages.update(i, PageV { blocks: a.blocks.update(a.blocks.len() - 1, joined), ..a }).update(
            i + 1,
            PageV { blocks: b.blocks.update(0, emptied), ..b },
        )
    } else {
        pages
    }
}

/// The pages after the breaks before page `k` have been handled, in order.
pub open spec fn merge_upto(pages: Seq<PageV>, k: int) -> Seq<PageV>
    decreases k,
{
    if k <= 0 {
        pages
    } else {
        merge_at(merge_upto(pages, k - 1), k - 1)
    }
}

pub open spec fn table_merge_result(d: DocumentV) -> DocumentV {
    if d.pages.len() < 2 {
        d
    } else {
        DocumentV { pages: merge_upto(d.pages, d.pages.len() - 1), ..d }
    }
}

proof fn lemma_merge_upto_len(pages: Seq<PageV>, k: int)
    requires
        0 <= k < pages.len(),
    ensures
        merge_upto(pages, k).len() == pages.len(),
    decreases k,
{
    if k > 0 {
        lemma_merge_upto_len(pages, k - 1);
    }
}

impl DocumentProcessor for TableMergeProcessor {
    open spec fn accepts(&self, d: DocumentV) -> bool {
        true
    }

    open spec fn result(&self, d: DocumentV) -> DocumentV {
        table_merge_result(d)
    }

    fn name(&self) -> (n: &'static str)
        ensures
            n@ == "TableMergeProcessor"@,
    {
        "TableMergeProcessor"
    }

    fn process(&self, document: &mut Document, _ctx: &PipelineContext) -> (r: Result<(), Error>) {
        let n = document.pages.len();
        if n < 2 {
            return Ok(());
        }
        let ghost d0 = document@;
        let mut i: usize = 0;
        while i < n - 1
            invariant
                d0 == old(document)@,
                n == d0.pages.len(),
                n >= 2,
                i <= n - 1,
                document@ == (DocumentV { pages: merge_upto(d0.pages, i as int), ..d0 }),
            decreases n - 1 - i,
        {
            proof {
                lemma_merge_upto_len(d0.pages, i as int);
            }
            let ghost cur = document@.pages;
            let ends_with_table = document.pages[i].blocks.len() > 0
                && document.pages[i].blocks[document.pages[i].blocks.len() - 1].block_type
                == BlockType::Table;
            let starts_with_table = document.pages[i + 1].blocks.len() > 0
                && document.pages[i + 1].blocks[0].block_type == BlockType::Table;
            if ends_with_table && starts_with_table {
                assert(table_continues(cur, i as int));
                let last = document.pages[i].blocks.len() - 1;
                let ghost prev = cur[i as int].blocks[last as int];
                let ghost next = cur[i + 1].blocks[0];
                let mut next_text = String::new();
                std::mem::swap(&mut next_text, &mut document.pages[i + 1].blocks[0].text);
                let mut next_lines: Vec<Line> = Vec::new();
                std::mem::swap(&mut next_lines, &mut document.pages[i + 1].blocks[0].lines);
                document.pages[i + 1].blocks[0].block_type = BlockType::Unknown;
                assert(next_text@ == next.text);
                assert(next_lines@.map_values(|l: Line| l@) == next.lines);
                let ghost mid = document@.pages;
                assert(mid[i + 1].blocks[0].lines =~= Seq::<crate::schema::LineV>::empty());
                assert(mid[i + 1].blocks[0] == (BlockV {
                    block_type: BlockType::Unknown,
                    text: Seq::empty(),
                    lines: Seq::empty(),
                    ..next
                }));
                assert(mid[i + 1].blocks =~= cur[i + 1].blocks.update(0, mid[i + 1].blocks[0]));
                assert(forall|q: int| 0 <= q < n && q != i + 1 ==> mid[q] == cur[q]);
                append_str(&mut document.pages[i].blocks[last].text, "\n");
                append_str(&mut document.pages[i].blocks[last].text, next_text.as_str());
                document.pages[i].blocks[last].lines.append(&mut next_lines);
                let ghost fin = document@.pages;
                assert(fin[i as int].blocks[last as int].lines =~= prev.lines + next.lines);
                assert(fin[i as int].blocks[last as int] == (BlockV {
                    text: prev.text + "\n"@ + next.text,
                    lines: prev.lines + next.lines,
                    ..prev
                }));
                assert(fin[i as int].blocks =~= cur[i as int].blocks.update(
                    last as int,
                    fin[i as int].blocks[last as int],
                ));
                assert(forall|q: int| 0 <= q < n && q != i ==> fin[q] == mid[q]);
                assert(document@.pages =~= merge_at(cur, i as int));
            } else {
                assert(!table_continues(cur, i as int));
            }
            i = i + 1;
        }
        Ok(())
    }
}

} // verus!
