//! Infers heading levels of short single-line text blocks from the average
//! font size of their spans and from bold font names.
use crate::context::PipelineContext;
use crate::document::Document;
use crate::error::Error;
use crate::processors::{all_blocks, apply_to_blocks, map_blocks, BlockRule, DocumentProcessor};
use crate::schema::{Block, BlockType, BlockV, DocumentV, LineV, SpanV};
use crate::text::{
    chars_of, contains, lowercase, seq_contains, to_lowercase, trim, trim_seq, word_count,
    word_count_exec,
};
use vstd::prelude::*;

verus! {

pub struct HeadingProcessor;

/// The spans of the lines, in order.
pub open spec fn flat_spans(lines: Seq<LineV>) -> Seq<SpanV>
    decreases lines.len(),
{
    if lines.len() == 0 {
        Seq::empty()
    } else {
        flat_spans(lines.drop_last()) + lines.last().spans
    }
}

/// The sum of the font sizes of the spans.
pub open spec fn size_sum(spans: Seq<SpanV>) -> int
    decreases spans.len(),
{
    if spans.len() == 0 {
        0
    } else {
        size_sum(spans.drop_last()) + spans.last().font_size
    }
}

/// A lowercase font name that marks a bold face: it holds "bold", "bd",
/// "heavy" or "black".
pub open spec fn names_bold_face(l: Seq<char>) -> bool {
    seq_contains(l, "bold"@) || seq_contains(l, "bd"@) || seq_contains(l, "heavy"@) || seq_contains(
        l,
        "black"@,
    )
}

/// A font name that marks a bold face, in any case.
pub open spec fn is_bold_font(name: Seq<char>) -> bool {
    names_bold_face(lowercase(name))
}

/// The average font size of the spans is at least `t` (hundredths of a
/// point); with no spans the average is taken as 10 points.
pub open spec fn average_at_least(spans: Seq<SpanV>, t: int) -> bool {
    if spans.len() > 0 {
        size_sum(spans) >= t * spans.len()
    } else {
        1000 >= t
    }
}

pub open spec fn heading_rule(b: BlockV) -> BlockV {
    if b.block_type != BlockType::Text {
        b
    } else {
        let spans = flat_spans(b.lines);
        let bold = exists|i: int| 0 <= i < spans.len() && is_bold_font(#[trigger] spans[i].font_name);
        let words = word_count(trim_seq(b.text));
        if 0 < words <= 12 && b.lines.len() <= 1 {
            if average_at_least(spans, 1600) {
                BlockV { block_type: BlockType::Heading1, ..b }
            } else if average_at_least(spans, 1300) {
                BlockV { block_type: BlockType::Heading2, ..b }
            } else if average_at_least(spans, 1150) && bold {
                BlockV { block_type: BlockType::Heading3, ..b }
            } else {
                b
            }
        } else {
            b
        }
    }
}

/// A text block has fewer than 2^31 spans: the span counter is an `i32`.
pub open spec fn heading_admits(b: BlockV) -> bool {
    b.block_type == BlockType::Text ==> flat_spans(b.lines).len() < 0x8000_0000
}

pub open spec fn heading_result(d: DocumentV) -> DocumentV {
    map_blocks(d, |b: BlockV| heading_rule(b))
}

/// Whether a lowercase font name marks a bold face.
pub fn is_bold_lowercase(lower: &str) -> (b: bool)
    ensures
        b == names_bold_face(lower@),
{
    let l = chars_of(lower);
    contains(&l, "bold") || contains(&l, "bd") || contains(&l, "heavy") || contains(&l, "black")
}

fn is_bold_name(name: &str) -> (b: bool)
    ensures
        b == is_bold_font(name@),
{
    is_bold_lowercase(to_lowercase(name).as_str())
}

proof fn lemma_flat_spans_step(lines: Seq<LineV>, li: int, si: int)
    requires
        0 <= li < lines.len(),
        0 <= si < lines[li].spans.len(),
    ensures
        (flat_spans(lines.take(li)) + lines[li].spans.take(si + 1)).drop_last() == flat_spans(
            lines.take(li),
        ) + lines[li].spans.take(si),
        (flat_spans(lines.take(li)) + lines[li].spans.take(si + 1)).last() == lines[li].spans[si],
{
    assert((flat_spans(lines.take(li)) + lines[li].spans.take(si + 1)).drop_last() =~= flat_spans(
        lines.take(li),
    ) + lines[li].spans.take(si));
}

proof fn lemma_flat_spans_next_line(lines: Seq<LineV>, li: int)
    requires
        0 <= li < lines.len(),
    ensures
        flat_spans(lines.take(li + 1)) == flat_spans(lines.take(li)) + lines[li].spans.take(
            lines[li].spans.len() as int,
        ),
{
    assert(lines.take(li + 1).drop_last() =~= lines.take(li));
    assert(lines[li].spans.take(lines[li].spans.len() as int) =~= lines[li].spans);
}

impl BlockRule for HeadingProcessor {
    open spec fn admits(&self, b: BlockV) -> bool {
        heading_admits(b)
    }

    open spec fn rule(&self, b: BlockV) -> BlockV {
        heading_rule(b)
    }

    fn apply(&self, block: &mut Block) {
        if block.block_type != BlockType::Text {
            return ;
        }
        let ghost bv = block@;
        let ghost lines = bv.lines;
        let ghost all = flat_spans(lines);
        let mut total: i128 = 0;
        let mut count: u64 = 0;
        let mut has_bold = false;
        let mut li: usize = 0;
        assert(lines.take(0) =~= Seq::<LineV>::empty());
        while li < block.lines.len()
            invariant
                bv == block@,
                lines == bv.lines,
                all == flat_spans(lines),
                all.len() < 0x8000_0000,
                li <= lines.len(),
                count == flat_spans(lines.take(li as int)).len(),
                total == size_sum(flat_spans(lines.take(li as int))),
                has_bold == exists|k: int|
                    0 <= k < flat_spans(lines.take(li as int)).len() && is_bold_font(
                        #[trigger] flat_spans(lines.take(li as int))[k].font_name,
                    ),
            decreases lines.len() - li,
        {
            let line = &block.lines[li];
            let mut si: usize = 0;
            proof {
                assert(lines[li as int].spans.take(0) =~= Seq::<SpanV>::empty());
                assert(flat_spans(lines.take(li as int)) + lines[li as int].spans.take(0)
                    =~= flat_spans(lines.take(li as int)));
                lemma_flat_prefix_len(lines, li as int);
            }
            while si < line.spans.len()
                invariant
                    bv == block@,
                    lines == bv.lines,
                    all == flat_spans(lines),
                    all.len() < 0x8000_0000,
                    li < lines.len(),
                    line@ == lines[li as int],
                    si <= lines[li as int].spans.len(),
                    flat_spans(lines.take(li as int + 1)).len() <= all.len(),
                    count == (flat_spans(lines.take(li as int)) + lines[li as int].spans.take(
                        si as int,
                    )).len(),
                    total == size_sum(
                        flat_spans(lines.take(li as int)) + lines[li as int].spans.take(si as int),
                    ),
                    has_bold == exists|k: int|
                        0 <= k < (flat_spans(lines.take(li as int)) + lines[li as int].spans.take(
                            si as int,
                        )).len() && is_bold_font(
                            #[trigger] (flat_spans(lines.take(li as int)) + lines[
                                li as int
                            ].spans.take(si as int))[k].font_name,
                        ),
                decreases lines[li as int].spans.len() - si,
            {
                let span = &line.spans[si];
                proof {
                    lemma_flat_spans_step(lines, li as int, si as int);
                    lemma_flat_spans_next_line(lines, li as int);
                    lemma_size_sum_bound(
                        flat_spans(lines.take(li as int)) + lines[li as int].spans.take(si as int),
                    );
                }
                let ghost prev = flat_spans(lines.take(li as int)) + lines[li as int].spans.take(
                    si as int,
                );
                let ghost next = flat_spans(lines.take(li as int)) + lines[li as int].spans.take(
                    si as int + 1,
                );
                assert(next.len() <= flat_spans(lines.take(li as int + 1)).len()) by {
                    assert(next.len() == prev.len() + 1);
                }
                total = total + span.font_size as i128;
                count = count + 1;
                let b = is_bold_name(span.font_name.as_str());
                if b {
                    has_bold = true;
                    assert(is_bold_font(next[next.len() - 1].font_name));
                } else {
                    assert forall|k: int|
                        0 <= k < next.len() && is_bold_font(#[trigger] next[k].font_name) implies 0
                        <= k < prev.len() && is_bold_font(prev[k].font_name) by {
                        assert(next[k] == next.drop_last()[k] || k == next.len() - 1);
                    }
                }
                assert(forall|k: int| 0 <= k < prev.len() ==> next[k] == prev[k]);
                si = si + 1;
            }
            proof {
                lemma_flat_spans_next_line(lines, li as int);
            }
            li = li + 1;
        }
        assert(lines.take(lines.len() as int) =~= lines);
        let t = chars_of(trim(block.text.as_str()).as_str());
        let words = word_count_exec(&t);
        if words > 0 && words <= 12 && block.lines.len() <= 1 {
            let n = count as i128;
            let h1 = if count > 0 { total >= 1600 * n } else { false };
            let h2 = if count > 0 { total >= 1300 * n } else { false };
            let h3 = if count > 0 { total >= 1150 * n } else { false };
            if h1 {
                block.block_type = BlockType::Heading1;
            } else if h2 {
                block.block_type = BlockType::Heading2;
            } else if h3 && has_bold {
                block.block_type = BlockType::Heading3;
            }
        }
    }
}

proof fn lemma_flat_prefix_len(lines: Seq<LineV>, li: int)
    requires
        0 <= li < lines.len(),
    ensures
        flat_spans(lines.take(li + 1)).len() <= flat_spans(lines).len(),
    decreases lines.len(),
{
    if li + 1 < lines.len() {
        assert(lines.drop_last().take(li + 1) =~= lines.take(li + 1));
        lemma_flat_prefix_len(lines.drop_last(), li);
    } else {
        assert(lines.take(li + 1) =~= lines);
    }
}

proof fn lemma_size_sum_bound(spans: Seq<SpanV>)
    ensures
        -0x8000_0000_0000_0000 * spans.len() <= size_sum(spans) <= 0x7FFF_FFFF_FFFF_FFFF * spans.len(),
    decreases spans.len(),
{
    if spans.len() > 0 {
        lemma_size_sum_bound(spans.drop_last());
    }
}

impl DocumentProcessor for HeadingProcessor {
    open spec fn accepts(&self, d: DocumentV) -> bool {
        all_blocks(d, |b: BlockV| heading_admits(b))
    }

    open spec fn result(&self, d: DocumentV) -> DocumentV {
        heading_result(d)
    }

    fn name(&self) -> (n: &'static str)
        ensures
            n@ == "HeadingProcessor"@,
    {
        "HeadingProcessor"
    }

    fn process(&self, document: &mut Document, _ctx: &PipelineContext) -> (r: Result<(), Error>) {
        assert((|b: BlockV| self.admits(b)) =~= (|b: BlockV| heading_admits(b)));
        apply_to_blocks(self, document);
        assert((|b: BlockV| self.rule(b)) =~= (|b: BlockV| heading_rule(b)));
        Ok(())
    }
}

} // verus!
