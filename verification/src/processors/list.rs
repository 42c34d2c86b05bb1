//! Detects list items: text blocks that begin with a bullet or with a
//! number followed by a dot and whitespace; the marker is removed.
use crate::context::PipelineContext;
use crate::document::Document;
use crate::error::Error;
use crate::processors::{apply_to_blocks, map_blocks, BlockRule, DocumentProcessor};
use crate::schema::{Block, BlockType, BlockV, DocumentV};
use crate::text::{
    chars_of, is_ascii_digit, is_digit, is_whitespace, is_ws, seq_starts_with, starts_with,
    string_from_range, trim_start, trim_start_seq,
};
use vstd::prelude::*;

verus! {

pub struct ListProcessor;

/// The bullets that open a list item, each followed by a space.
pub open spec fn bullet_at(k: int) -> Seq<char> {
    if k == 0 {
        "* "@
    } else if k == 1 {
        "- "@
    } else if k == 2 {
        "• "@
    } else if k == 3 {
        "+ "@
    } else if k == 4 {
        "◦ "@
    } else {
        "▪ "@
    }
}

/// The index of the first bullet that `t` begins with, among the first `k`.
pub open spec fn first_bullet(t: Seq<char>, k: int) -> Option<int>
    decreases k,
{
    if k <= 0 {
        None
    } else {
        match first_bullet(t, k - 1) {
            Some(j) => Some(j),
            None => if seq_starts_with(t, bullet_at(k - 1)) {
                Some(k - 1)
            } else {
                None
            },
        }
    }
}

/// The number of ASCII digits that `t` begins with.
pub open spec fn leading_digits(t: Seq<char>) -> nat
    decreases t.len(),
{
    if t.len() > 0 && is_digit(t[0]) {
        1 + leading_digits(t.drop_first())
    } else {
        0
    }
}

/// How many characters of `t` (already trimmed at the start) form a list
/// marker, if it begins with one.
pub open spec fn list_marker_len(t: Seq<char>) -> Option<nat> {
    match first_bullet(t, 6) {
        Some(k) => Some(bullet_at(k).len()),
        None => {
            let i = leading_digits(t);
            if i > 0 && i + 1 < t.len() && t[i as int] == '.' && is_ws(t[(i + 1) as int]) {
                Some(i + 2)
            } else {
                None
            }
        },
    }
}

pub open spec fn list_rule(b: BlockV) -> BlockV {
    if b.block_type != BlockType::Text {
        b
    } else {
        let t = trim_start_seq(b.text);
        match list_marker_len(t) {
            Some(n) => BlockV { block_type: BlockType::ListItem, text: t.skip(n as int), ..b },
            None => b,
        }
    }
}

pub open spec fn list_result(d: DocumentV) -> DocumentV {
    map_blocks(d, |b: BlockV| list_rule(b))
}

fn bullet(k: usize) -> (s: &'static str)
    requires
        k < 6,
    ensures
        s@ == bullet_at(k as int),
{
    if k == 0 {
        "* "
    } else if k == 1 {
        "- "
    } else if k == 2 {
        "• "
    } else if k == 3 {
        "+ "
    } else if k == 4 {
        "◦ "
    } else {
        "▪ "
    }
}

proof fn lemma_first_bullet_stays(t: Seq<char>, k: int, m: int)
    requires
        0 <= k < m,
        first_bullet(t, k + 1) == Some(k),
    ensures
        first_bullet(t, m) == Some(k),
    decreases m,
{
    if m > k + 1 {
        lemma_first_bullet_stays(t, k, m - 1);
    }
}

pub(crate) proof fn lemma_leading_digits(t: Seq<char>, i: int)
    requires
        0 <= i <= t.len(),
        forall|j: int| 0 <= j < i ==> is_digit(t[j]),
        i == t.len() || !is_digit(t[i]),
    ensures
        leading_digits(t) == i,
    decreases i,
{
    if i > 0 {
        lemma_leading_digits(t.drop_first(), i - 1);
    }
}

fn marker_len(t: &Vec<char>) -> (r: Option<usize>)
    ensures
        match r {
            Some(n) => list_marker_len(t@) == Some(n as nat) && n <= t@.len(),
            None => list_marker_len(t@) is None,
        },
{
    let mut k: usize = 0;
    while k < 6
        invariant
            k <= 6,
            first_bullet(t@, k as int) is None,
        decreases 6 - k,
    {
        let b = bullet(k);
        if starts_with(t, b) {
            assert(first_bullet(t@, k + 1) == Some(k as int));
            proof {
                lemma_first_bullet_stays(t@, k as int, 6);
            }
            assert(bullet_at(k as int).len() == 2) by {
                reveal_strlit("* ");
                reveal_strlit("- ");
                reveal_strlit("• ");
                reveal_strlit("+ ");
                reveal_strlit("◦ ");
                reveal_strlit("▪ ");
            }
            return Some(2);
        }
        k = k + 1;
    }
    let mut i: usize = 0;
    while i < t.len() && is_ascii_digit(t[i])
        invariant
            i <= t@.len(),
            forall|j: int| 0 <= j < i ==> is_digit(t@[j]),
        decreases t@.len() - i,
    {
        i = i + 1;
    }
    proof {
        lemma_leading_digits(t@, i as int);
    }
    if i > 0 && i < t.len() && t.len() - i > 1 && t[i] == '.' && is_whitespace(t[i + 1]) {
        Some(i + 2)
    } else {
        None
    }
}

impl BlockRule for ListProcessor {
    open spec fn admits(&self, b: BlockV) -> bool {
        true
    }

    open spec fn rule(&self, b: BlockV) -> BlockV {
        list_rule(b)
    }

    fn apply(&self, block: &mut Block) {
        if block.block_type != BlockType::Text {
            return ;
        }
        let t = chars_of(trim_start(block.text.as_str()).as_str());
        match marker_len(&t) {
            Some(n) => {
                block.block_type = BlockType::ListItem;
                block.text = string_from_range(&t, n, t.len());
            },
            None => {},
        }
    }
}

impl DocumentProcessor for ListProcessor {
    open spec fn accepts(&self, d: DocumentV) -> bool {
        true
    }

    open spec fn result(&self, d: DocumentV) -> DocumentV {
        list_result(d)
    }

    fn name(&self) -> (n: &'static str)
        ensures
            n@ == "ListProcessor"@,
    {
        "ListProcessor"
    }

    fn process(&self, document: &mut Document, _ctx: &PipelineContext) -> (r: Result<(), Error>) {
        apply_to_blocks(self, document);
        assert((|b: BlockV| self.rule(b)) =~= (|b: BlockV| list_rule(b)));
        Ok(())
    }
}

} // verus!
