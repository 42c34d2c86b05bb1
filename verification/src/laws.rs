//! Properties that hold across the library's operations: what a read gives
//! back after a write, what undo and redo restore, what the history keeps,
//! what the processors preserve.
use crate::app_state::{
    history_ok, keep_upto, show_version, step, trim_history, AppStateV, MainStateV, Message,
    MAX_HISTORY_DEPTH,
};
use crate::builder::{block_id, built_page, is_built_document, page_is_built};
use crate::document::{page_lacks_id, Document};
use crate::text::{decimal, is_digit, lemma_decimal_digits, lemma_decimal_injective, seq_starts_with};
use crate::document::{first_with_id, with_block_text};
use crate::processors::equation::{equation_result, equation_rule};
use crate::processors::heading::{heading_result, heading_rule};
use crate::processors::list::{list_result, list_rule};
use crate::processors::map_blocks;
use crate::processors::line_merge::{can_merge, merge_blocks_seq, merge_state, merge_two};
use crate::processors::order::{insert_in_order, reading_order, reads_before};
use crate::processors::table::{table_result, table_rule};
use crate::renderers::html::{html_escape_char, html_escape_seq};
use crate::schema::{BlockV, DocumentV, LineV};
use vstd::prelude::*;

verus! {

/// After the text of a block is set, the same block is still the first
/// with its id, and it holds the new text; every other block is unchanged.
pub proof fn law_update_then_find(d: DocumentV, id: Seq<char>, p: int, i: int, t: Seq<char>)
    requires
        first_with_id(d, p, i, id),
    ensures
        first_with_id(with_block_text(d, p, i, t), p, i, id),
        with_block_text(d, p, i, t).pages[p].blocks[i].text == t,
        forall|q: int, j: int|
            0 <= q < d.pages.len() && 0 <= j < d.pages[q].blocks.len() && (q != p || j != i)
                ==> #[trigger] with_block_text(d, p, i, t).pages[q].blocks[j] == d.pages[q].blocks[j],
{
    let e = with_block_text(d, p, i, t);
    assert forall|q: int| 0 <= q < p implies crate::document::page_lacks_id(#[trigger] e.pages[q], id) by {
        assert(e.pages[q] == d.pages[q]);
        assert(crate::document::page_lacks_id(d.pages[q], id));
    }
}

/// Metadata: after a key is set, reading it gives the value just set, and
/// every other key reads as before.
pub proof fn law_metadata_read_after_write(
    m: Map<Seq<char>, Seq<char>>,
    k: Seq<char>,
    v: Seq<char>,
    other: Seq<char>,
)
    requires
        other != k,
    ensures
        m.insert(k, v).dom().contains(k),
        m.insert(k, v)[k] == v,
        m.insert(k, v).dom().contains(other) == m.dom().contains(other),
        m.dom().contains(other) ==> m.insert(k, v)[other] == m[other],
{
}

/// A registered job is found under its id with its handle; once taken out
/// (by cancelling or finishing), it is no longer found, so a second cancel
/// finds nothing.
pub proof fn law_job_registered_then_removed<T>(jobs: Map<Seq<char>, T>, id: Seq<char>, token: T)
    ensures
        jobs.insert(id, token).contains_key(id),
        jobs.insert(id, token)[id] == token,
        !jobs.insert(id, token).remove(id).contains_key(id),
        !jobs.insert(id, token).remove(id).remove(id).contains_key(id),
{
}

proof fn lemma_trim_history_ok(h: Seq<(DocumentV, Seq<char>)>, idx: usize)
    requires
        (h.len() == 0 && idx == 0) || idx < h.len(),
    ensures
        ({
            let (h2, i2) = trim_history(h, idx);
            &&& h2.len() <= MAX_HISTORY_DEPTH
            &&& if h2.len() == 0 {
                i2 == 0
            } else {
                i2 < h2.len()
            }
        }),
    decreases h.len(),
{
    if h.len() > MAX_HISTORY_DEPTH {
        let i1: usize = if idx > 0 {
            (idx - 1) as usize
        } else {
            0
        };
        lemma_trim_history_ok(h.drop_first(), i1);
    }
}

/// Every message keeps the history within its depth limit, with its index
/// on one of its versions. (Accepting a patch needs a version to accept.)
pub proof fn law_step_keeps_history_ok(s: AppStateV, m: Message, now_ms: u128)
    requires
        history_ok(s),
        m is AcceptPatchClicked ==> s.history.len() > 0,
    ensures
        history_ok(step(s, m, now_ms).0),
{
    match m {
        Message::LlmFeedbackResult(r) => {
            if let Ok((md, doc)) = r {
                let kept = keep_upto(s.history, s.history_index);
                lemma_trim_history_ok(kept.push((doc@, md@)), s.history_index);
            }
        },
        _ => {},
    }
}

/// Undo followed by redo shows again the version that was current.
pub proof fn law_undo_then_redo(s: AppStateV, now_ms: u128)
    requires
        history_ok(s),
        s.history_index > 0,
    ensures
        step(step(s, Message::UndoClicked, now_ms).0, Message::RedoClicked, now_ms).0
            == show_version(s, s.history_index),
{
}

/// Redo followed by undo shows again the version that was current.
pub proof fn law_redo_then_undo(s: AppStateV, now_ms: u128)
    requires
        history_ok(s),
        s.history_index + 1 < s.history.len(),
    ensures
        step(step(s, Message::RedoClicked, now_ms).0, Message::UndoClicked, now_ms).0
            == show_version(s, s.history_index),
{
}

proof fn lemma_map_blocks_twice(d: DocumentV, f: spec_fn(BlockV) -> BlockV)
    requires
        forall|b: BlockV| #[trigger] f(f(b)) == f(b),
    ensures
        map_blocks(map_blocks(d, f), f) == map_blocks(d, f),
{
    let once = map_blocks(d, f);
    let twice = map_blocks(once, f);
    assert forall|q: int| 0 <= q < d.pages.len() implies twice.pages[q] == once.pages[q] by {
        assert(twice.pages[q].blocks =~= once.pages[q].blocks);
    }
    assert(twice.pages =~= once.pages);
}

/// Running the equation, table, list or heading processor a second time
/// changes nothing: each relabels a block at most once.
pub proof fn law_relabelling_is_idempotent(d: DocumentV)
    ensures
        equation_result(equation_result(d)) == equation_result(d),
        table_result(table_result(d)) == table_result(d),
        list_result(list_result(d)) == list_result(d),
        heading_result(heading_result(d)) == heading_result(d),
{
    assert forall|b: BlockV| #[trigger] equation_rule(equation_rule(b)) == equation_rule(b) by {}
    lemma_map_blocks_twice(d, |b: BlockV| equation_rule(b));
    assert forall|b: BlockV| #[trigger] table_rule(table_rule(b)) == table_rule(b) by {}
    lemma_map_blocks_twice(d, |b: BlockV| table_rule(b));
    assert forall|b: BlockV| #[trigger] list_rule(list_rule(b)) == list_rule(b) by {}
    lemma_map_blocks_twice(d, |b: BlockV| list_rule(b));
    assert forall|b: BlockV| #[trigger] heading_rule(heading_rule(b)) == heading_rule(b) by {}
    lemma_map_blocks_twice(d, |b: BlockV| heading_rule(b));
}

proof fn lemma_insert_in_order_multiset(s: Seq<BlockV>, x: BlockV)
    ensures
        insert_in_order(s, x).to_multiset() == s.to_multiset().insert(x),
    decreases s.len(),
{
    broadcast use vstd::seq_lib::group_to_multiset_ensures;

    if s.len() == 0 || !reads_before(x, s.last()) {
    } else {
        lemma_insert_in_order_multiset(s.drop_last(), x);
        assert(s.drop_last().push(s.last()) =~= s);
    }
}

/// Reading order moves blocks, never adds or drops one: it holds each block
/// of the page as often as the page did.
pub proof fn law_reading_order_is_permutation(bs: Seq<BlockV>)
    ensures
        reading_order(bs).to_multiset() == bs.to_multiset(),
    decreases bs.len(),
{
    broadcast use vstd::seq_lib::group_to_multiset_ensures;

    if bs.len() > 0 {
        law_reading_order_is_permutation(bs.drop_last());
        lemma_insert_in_order_multiset(reading_order(bs.drop_last()), bs.last());
        assert(bs.drop_last().push(bs.last()) =~= bs);
    }
}

/// "Reads before" never holds both ways.
pub proof fn law_reads_before_asymmetric(a: BlockV, b: BlockV)
    ensures
        !(reads_before(a, b) && reads_before(b, a)),
{
}

/// No block of `s` is placed after one that it reads before.
pub open spec fn in_reading_order(s: Seq<BlockV>) -> bool {
    forall|i: int, j: int| 0 <= i < j < s.len() ==> !reads_before(#[trigger] s[j], #[trigger] s[i])
}

/// Not reading before is transitive among the blocks of `s`: the blocks
/// fall into rows that are ordered consistently.
pub open spec fn order_consistent(s: Seq<BlockV>) -> bool {
    forall|a: BlockV, b: BlockV, c: BlockV|
        #![trigger s.contains(a), s.contains(b), s.contains(c)]
        s.contains(a) && s.contains(b) && s.contains(c) && !reads_before(a, b) && !reads_before(b, c)
            ==> !reads_before(a, c)
}

proof fn lemma_insert_sorted(s: Seq<BlockV>, x: BlockV, all: Seq<BlockV>)
    requires
        in_reading_order(s),
        order_consistent(all),
        all.contains(x),
        forall|i: int| 0 <= i < s.len() ==> all.contains(#[trigger] s[i]),
    ensures
        in_reading_order(insert_in_order(s, x)),
        forall|i: int|
            0 <= i < insert_in_order(s, x).len() ==> all.contains(#[trigger] insert_in_order(s, x)[i]),
        insert_in_order(s, x).len() == s.len() + 1,
    decreases s.len(),
{
    if s.len() == 0 || !reads_before(x, s.last()) {
        let r = s.push(x);
        assert forall|i: int, j: int| 0 <= i < j < r.len() implies !reads_before(
            #[trigger] r[j],
            #[trigger] r[i],
        ) by {
            if j == s.len() {
                if i < s.len() - 1 {
                    assert(all.contains(s[i]));
                    assert(all.contains(s.last()));
                    assert(!reads_before(s.last(), s[i]));
                    assert(!reads_before(x, s[i]));
                }
            } else {
                assert(r[i] == s[i] && r[j] == s[j]);
            }
        }
        assert forall|i: int| 0 <= i < r.len() implies all.contains(#[trigger] r[i]) by {
            if i < s.len() {
                assert(r[i] == s[i]);
            }
        }
    } else {
        let t = s.drop_last();
        assert forall|i: int, j: int| 0 <= i < j < t.len() implies !reads_before(
            #[trigger] t[j],
            #[trigger] t[i],
        ) by {
            assert(t[i] == s[i] && t[j] == s[j]);
        }
        assert forall|i: int| 0 <= i < t.len() implies all.contains(#[trigger] t[i]) by {
            assert(t[i] == s[i]);
        }
        lemma_insert_sorted(t, x, all);
        let u = insert_in_order(t, x);
        let r = u.push(s.last());
        lemma_insert_in_order_multiset(t, x);
        assert forall|i: int, j: int| 0 <= i < j < r.len() implies !reads_before(
            #[trigger] r[j],
            #[trigger] r[i],
        ) by {
            if j == u.len() {
                let y = u[i];
                broadcast use vstd::seq_lib::group_to_multiset_ensures;
                broadcast use vstd::multiset::group_multiset_axioms;

                assert(u.contains(y));
                assert(u.to_multiset().count(y) > 0);
                assert(t.to_multiset().insert(x).count(y) > 0);
                if y == x {
                    law_reads_before_asymmetric(x, s.last());
                } else {
                    assert(t.to_multiset().count(y) > 0);
                    assert(t.contains(y));
                    let k = choose|k: int| 0 <= k < t.len() && t[k] == y;
                    assert(s[k] == y);
                    assert(!reads_before(s[s.len() - 1], s[k]));
                }
            } else {
                assert(r[i] == u[i] && r[j] == u[j]);
            }
        }
        assert forall|i: int| 0 <= i < r.len() implies all.contains(#[trigger] r[i]) by {
            if i < u.len() {
                assert(r[i] == u[i]);
            } else {
                assert(all.contains(s[s.len() - 1]));
            }
        }
    }
}

proof fn lemma_reading_order_sorted(bs: Seq<BlockV>, all: Seq<BlockV>)
    requires
        order_consistent(all),
        forall|i: int| 0 <= i < bs.len() ==> all.contains(#[trigger] bs[i]),
    ensures
        in_reading_order(reading_order(bs)),
        forall|i: int| 0 <= i < reading_order(bs).len() ==> all.contains(#[trigger] reading_order(bs)[i]),
        reading_order(bs).len() == bs.len(),
    decreases bs.len(),
{
    if bs.len() > 0 {
        let t = bs.drop_last();
        assert forall|i: int| 0 <= i < t.len() implies all.contains(#[trigger] t[i]) by {
            assert(t[i] == bs[i]);
        }
        lemma_reading_order_sorted(t, all);
        assert(all.contains(bs[bs.len() - 1]));
        lemma_insert_sorted(reading_order(t), bs.last(), all);
    }
}

/// Each block of `s` is in order with the block just before it: it does
/// not read before it.
pub open spec fn neighbours_in_order(s: Seq<BlockV>) -> bool {
    forall|i: int| 0 < i < s.len() ==> !reads_before(#[trigger] s[i], s[i - 1])
}

proof fn lemma_insert_neighbours(s: Seq<BlockV>, x: BlockV)
    requires
        neighbours_in_order(s),
    ensures
        neighbours_in_order(insert_in_order(s, x)),
        insert_in_order(s, x).len() == s.len() + 1,
        insert_in_order(s, x).last() == x || (s.len() > 0 && insert_in_order(s, x).last()
            == s.last()),
    decreases s.len(),
{
    if s.len() == 0 || !reads_before(x, s.last()) {
        let r = s.push(x);
        assert forall|i: int| 0 < i < r.len() implies !reads_before(#[trigger] r[i], r[i - 1]) by {
            if i < s.len() {
                assert(r[i] == s[i] && r[i - 1] == s[i - 1]);
            }
        }
    } else {
        let t = s.drop_last();
        assert(neighbours_in_order(t)) by {
            assert forall|i: int| 0 < i < t.len() implies !reads_before(#[trigger] t[i], t[i - 1]) by {
                assert(t[i] == s[i] && t[i - 1] == s[i - 1]);
            }
        }
        lemma_insert_neighbours(t, x);
        let m = insert_in_order(t, x);
        let r = m.push(s.last());
        assert(!reads_before(s.last(), m.last())) by {
            if m.last() != x {
                assert(s[s.len() - 1] == s.last());
                assert(s[s.len() - 2] == t.last());
            }
        }
        assert forall|i: int| 0 < i < r.len() implies !reads_before(#[trigger] r[i], r[i - 1]) by {
            if i < m.len() {
                assert(r[i] == m[i] && r[i - 1] == m[i - 1]);
            }
        }
    }
}

/// Whatever the blocks, no block of the reading order comes right after one
/// that it reads before: of two neighbours on one row (tops within the
/// tolerance) the later is not further left, and of two neighbours on
/// different rows the later is not higher.
pub proof fn law_reading_order_neighbours(bs: Seq<BlockV>)
    ensures
        neighbours_in_order(reading_order(bs)),
        reading_order(bs).len() == bs.len(),
    decreases bs.len(),
{
    if bs.len() > 0 {
        law_reading_order_neighbours(bs.drop_last());
        lemma_insert_neighbours(reading_order(bs.drop_last()), bs.last());
    }
}

/// Where the blocks of a page are ordered consistently (not reading before
/// is transitive among them, as when their rows lie more than the
/// tolerance apart), no block ends up after one that it reads before.
pub proof fn law_reading_order_is_sorted(bs: Seq<BlockV>)
    requires
        order_consistent(bs),
    ensures
        in_reading_order(reading_order(bs)),
{
    lemma_reading_order_sorted(bs, bs);
}

/// Escaped text holds none of the characters that HTML gives a meaning:
/// no `<`, `>`, `"` or `'`.
pub proof fn law_html_escape_is_inert(s: Seq<char>)
    ensures
        forall|i: int|
            0 <= i < html_escape_seq(s).len() ==> {
                let c = #[trigger] html_escape_seq(s)[i];
                c != '<' && c != '>' && c != '"' && c != '\''
            },
    decreases s.len(),
{
    if s.len() > 0 {
        law_html_escape_is_inert(s.drop_last());
        let c = s.last();
        reveal_strlit("&amp;");
        reveal_strlit("&lt;");
        reveal_strlit("&gt;");
        reveal_strlit("&quot;");
        reveal_strlit("&#39;");
        let a = html_escape_seq(s.drop_last());
        let e = html_escape_char(c);
        assert forall|i: int| 0 <= i < (a + e).len() implies {
            let d = #[trigger] (a + e)[i];
            d != '<' && d != '>' && d != '"' && d != '\''
        } by {
            if i >= a.len() {
                assert((a + e)[i] == e[i - a.len()]);
            }
        }
    }
}

/// The lines of the blocks, in order.
pub open spec fn all_lines(bs: Seq<BlockV>) -> Seq<LineV>
    decreases bs.len(),
{
    if bs.len() == 0 {
        Seq::empty()
    } else {
        all_lines(bs.drop_last()) + bs.last().lines
    }
}

proof fn lemma_merge_state_lines(bs: Seq<BlockV>)
    ensures
        ({
            let (done, cur) = merge_state(bs);
            &&& all_lines(bs) == all_lines(done) + match cur {
                Some(c) => c.lines,
                None => Seq::<LineV>::empty(),
            }
            &&& done.len() + (if cur is Some { 1int } else { 0int }) <= bs.len()
            &&& bs.len() > 0 ==> cur is Some
        }),
    decreases bs.len(),
{
    if bs.len() > 0 {
        lemma_merge_state_lines(bs.drop_last());
        let (done, cur) = merge_state(bs.drop_last());
        let b = bs.last();
        match cur {
            None => {
                assert(all_lines(done) + Seq::<LineV>::empty() =~= all_lines(done));
            },
            Some(c) => {
                if crate::processors::line_merge::can_merge(c, b) {
                    assert(merge_two(c, b).lines == c.lines + b.lines);
                    assert(all_lines(done) + c.lines + b.lines =~= all_lines(done) + (c.lines
                        + b.lines));
                } else {
                    assert(done.push(c).drop_last() =~= done);
                }
            },
        }
    }
}

/// Line merging joins blocks without losing or reordering a line: the
/// merged blocks hold the same lines in the same order, in no more blocks
/// than before.
pub proof fn law_line_merge_keeps_lines(bs: Seq<BlockV>)
    ensures
        all_lines(merge_blocks_seq(bs)) == all_lines(bs),
        merge_blocks_seq(bs).len() <= bs.len(),
{
    lemma_merge_state_lines(bs);
    let (done, cur) = merge_state(bs);
    match cur {
        Some(c) => {
            assert(done.push(c).drop_last() =~= done);
        },
        None => {
            assert(all_lines(done) + Seq::<LineV>::empty() =~= all_lines(done));
        },
    }
}

/// Where each block of the merge begins: the index of the first block of
/// its run, for the finished blocks and for the block still open.
spec fn merge_origins(bs: Seq<BlockV>) -> (Seq<int>, Option<int>)
    decreases bs.len(),
{
    if bs.len() == 0 {
        (Seq::empty(), None)
    } else {
        let (done, cur) = merge_state(bs.drop_last());
        let (od, oc) = merge_origins(bs.drop_last());
        let b = bs.last();
        match cur {
            None => (od, Some(bs.len() - 1)),
            Some(c) => if can_merge(c, b) {
                (od, oc)
            } else {
                (
                    od.push(
                        match oc {
                            Some(o) => o,
                            None => 0,
                        },
                    ),
                    Some(bs.len() - 1),
                )
            },
        }
    }
}

/// The ids in `out` are those of `bs` at the strictly increasing indices `f`.
pub open spec fn ids_at(out: Seq<BlockV>, bs: Seq<BlockV>, f: Seq<int>) -> bool {
    &&& f.len() == out.len()
    &&& forall|i: int, j: int| 0 <= i < j < f.len() ==> #[trigger] f[i] < #[trigger] f[j]
    &&& forall|i: int| 0 <= i < f.len() ==> 0 <= #[trigger] f[i] < bs.len() && out[i].id == bs[f[i]].id
}

proof fn lemma_merge_origins(bs: Seq<BlockV>)
    ensures
        ({
            let (done, cur) = merge_state(bs);
            let (od, oc) = merge_origins(bs);
            &&& ids_at(done, bs, od)
            &&& (cur is Some <==> oc is Some)
            &&& cur matches Some(c) ==> {
                &&& oc->0 >= 0
                &&& oc->0 < bs.len()
                &&& c.id == bs[oc->0].id
                &&& forall|i: int| 0 <= i < od.len() ==> #[trigger] od[i] < oc->0
            }
        }),
    decreases bs.len(),
{
    if bs.len() > 0 {
        let p = bs.drop_last();
        lemma_merge_origins(p);
        let (done, cur) = merge_state(p);
        let (od, oc) = merge_origins(p);
        let b = bs.last();
        assert forall|k: int| 0 <= k < p.len() implies #[trigger] bs[k] == p[k] by {}
        match cur {
            None => {},
            Some(c) => {
                if can_merge(c, b) {
                    assert(merge_two(c, b).id == c.id);
                } else {
                    let o = oc->0;
                    let od2 = od.push(o);
                    let done2 = done.push(c);
                    assert(bs[o] == p[o]);
                    assert forall|i: int| 0 <= i < od2.len() implies 0 <= #[trigger] od2[i] < bs.len()
                        && done2[i].id == bs[od2[i]].id by {
                        if i < od.len() {
                            assert(od2[i] == od[i]);
                            assert(done2[i] == done[i]);
                            assert(bs[od[i]] == p[od[i]]);
                        }
                    }
                    assert forall|i: int, j: int| 0 <= i < j < od2.len() implies #[trigger] od2[i]
                        < #[trigger] od2[j] by {
                        if j < od.len() {
                            assert(od2[i] == od[i] && od2[j] == od[j]);
                        } else {
                            assert(od2[i] == od[i]);
                        }
                    }
                    assert forall|i: int| 0 <= i < od2.len() implies #[trigger] od2[i] < bs.len()
                        - 1 by {
                        if i < od.len() {
                            assert(od2[i] == od[i]);
                        }
                    }
                }
            },
        }
    }
}

/// Line merging keeps the ids of the blocks in order: each merged block
/// has the id of the first block of its run, so the merged ids are the ids
/// before at strictly increasing positions.
pub proof fn law_line_merge_keeps_ids_in_order(bs: Seq<BlockV>)
    ensures
        exists|f: Seq<int>| ids_at(merge_blocks_seq(bs), bs, f),
{
    lemma_merge_origins(bs);
    let (done, cur) = merge_state(bs);
    let (od, oc) = merge_origins(bs);
    match cur {
        Some(c) => {
            let f = od.push(oc->0);
            let out = done.push(c);
            assert forall|i: int| 0 <= i < f.len() implies 0 <= #[trigger] f[i] < bs.len()
                && out[i].id == bs[f[i]].id by {
                if i < od.len() {
                    assert(f[i] == od[i]);
                    assert(out[i] == done[i]);
                }
            }
            assert forall|i: int, j: int| 0 <= i < j < f.len() implies #[trigger] f[i]
                < #[trigger] f[j] by {
                if j < od.len() {
                    assert(f[i] == od[i] && f[j] == od[j]);
                } else {
                    assert(f[i] == od[i]);
                }
            }
            assert(merge_blocks_seq(bs) == out);
            assert(ids_at(merge_blocks_seq(bs), bs, f));
        },
        None => {
            assert(merge_blocks_seq(bs) == done);
            assert(ids_at(merge_blocks_seq(bs), bs, od));
        },
    }
}

proof fn lemma_trim_keeps_last(h: Seq<(DocumentV, Seq<char>)>, idx: usize)
    requires
        h.len() > 0,
    ensures
        trim_history(h, idx).0.len() > 0,
        trim_history(h, idx).0.last() == h.last(),
    decreases h.len(),
{
    if h.len() > MAX_HISTORY_DEPTH {
        let i1: usize = if idx > 0 {
            (idx - 1) as usize
        } else {
            0
        };
        lemma_trim_keeps_last(h.drop_first(), i1);
    }
}

/// Accepting a proposed correction shows it: the workspace then holds the
/// proposed Markdown and document, as the newest version.
pub proof fn law_accept_shows_the_proposal(
    s: AppStateV,
    markdown: String,
    document: Document,
    now_ms: u128,
)
    requires
        history_ok(s),
        s.current_file_path is Some,
    ensures
        ({
            let proposed = step(s, Message::LlmFeedbackResult(Ok((markdown, document))), now_ms).0;
            let accepted = step(proposed, Message::AcceptPatchClicked, now_ms).0;
            &&& accepted.main_state == (MainStateV::Converted {
                file_path: s.current_file_path->0,
                markdown: markdown@,
                document: document@,
            })
            &&& accepted.history_index == accepted.history.len() - 1
            &&& !accepted.diff_mode
            &&& accepted.patch_preview is None
        }),
{
    let kept = keep_upto(s.history, s.history_index);
    let pushed = kept.push((document@, markdown@));
    lemma_trim_keeps_last(pushed, s.history_index);
    lemma_trim_history_ok(pushed, s.history_index);
    let h = trim_history(pushed, s.history_index).0;
    assert(h[h.len() - 1] == (document@, markdown@));
}

/// Rejecting a proposed correction leaves the shown version and the
/// versions up to it as they were, when there was a version and the
/// proposal did not push the history past its depth.
pub proof fn law_reject_restores_the_history(
    s: AppStateV,
    markdown: String,
    document: Document,
    now_ms: u128,
)
    requires
        history_ok(s),
        s.history.len() > 0,
        s.history_index + 2 <= MAX_HISTORY_DEPTH,
    ensures
        ({
            let proposed = step(s, Message::LlmFeedbackResult(Ok((markdown, document))), now_ms).0;
            let rejected = step(proposed, Message::RejectPatchClicked, now_ms).0;
            &&& rejected.history == keep_upto(s.history, s.history_index)
            &&& rejected.history_index == s.history_index
            &&& rejected.main_state == s.main_state
            &&& !rejected.diff_mode
            &&& rejected.patch_preview is None
        }),
{
    let kept = keep_upto(s.history, s.history_index);
    let pushed = kept.push((document@, markdown@));
    assert(pushed.len() <= MAX_HISTORY_DEPTH);
    assert(trim_history(pushed, s.history_index) == (pushed, s.history_index));
    assert(pushed.take(s.history_index + 1) =~= kept);
}

proof fn lemma_block_id_injective(p1: usize, k1: nat, p2: usize, k2: nat)
    requires
        block_id(p1, k1) == block_id(p2, k2),
    ensures
        p1 == p2,
        k1 == k2,
{
    reveal_strlit("p");
    reveal_strlit("_b");
    lemma_decimal_digits(p1 as nat);
    lemma_decimal_digits(p2 as nat);
    lemma_decimal_digits(k1);
    lemma_decimal_digits(k2);
    let a1 = decimal(p1 as nat);
    let a2 = decimal(p2 as nat);
    let s = block_id(p1, k1);
    let t = block_id(p2, k2);
    assert(s[1 + a1.len() as int] == '_');
    assert(t[1 + a2.len() as int] == '_');
    if a1.len() < a2.len() {
        assert(t[1 + a1.len() as int] == a2[a1.len() as int]);
        assert(is_digit(a2[a1.len() as int]));
    } else if a2.len() < a1.len() {
        assert(s[1 + a2.len() as int] == a1[a2.len() as int]);
        assert(is_digit(a1[a2.len() as int]));
    }
    assert(a1.len() == a2.len());
    let n = a1.len() as int;
    assert(a1 =~= s.subrange(1, 1 + n));
    assert(a2 =~= t.subrange(1, 1 + n));
    lemma_decimal_injective(p1 as nat, p2 as nat);
    assert(decimal(k1) =~= s.subrange(3 + n, s.len() as int));
    assert(decimal(k2) =~= t.subrange(3 + n, t.len() as int));
    lemma_decimal_injective(k1, k2);
}

proof fn lemma_built_block_id(d: DocumentV, p: int, i: int)
    requires
        is_built_document(d),
        0 <= p < d.pages.len(),
        0 <= i < d.pages[p].blocks.len(),
    ensures
        d.pages[p].blocks[i].id == block_id(p as usize, i as nat),
{
    assert(page_is_built(d.pages, p));
    let (w, h, lines) = choose|w: i64, h: i64, lines: Seq<LineV>|
        #[trigger] built_page(p as usize, w, h, lines) == d.pages[p];
    assert(built_page(p as usize, w, h, lines) == d.pages[p]);
}

/// In a document as the builder makes it, no two blocks share an id, so
/// looking a block up by its id finds that very block.
pub proof fn law_built_block_ids_are_distinct(d: DocumentV, p: int, i: int, q: int, j: int)
    requires
        is_built_document(d),
        d.pages.len() <= usize::MAX + 1,
        0 <= p < d.pages.len(),
        0 <= i < d.pages[p].blocks.len(),
        0 <= q < d.pages.len(),
        0 <= j < d.pages[q].blocks.len(),
    ensures
        (p != q || i != j) ==> d.pages[p].blocks[i].id != d.pages[q].blocks[j].id,
        first_with_id(d, p, i, d.pages[p].blocks[i].id),
{
    lemma_built_block_id(d, p, i);
    lemma_built_block_id(d, q, j);
    if d.pages[p].blocks[i].id == d.pages[q].blocks[j].id {
        lemma_block_id_injective(p as usize, i as nat, q as usize, j as nat);
    }
    let id = d.pages[p].blocks[i].id;
    assert forall|r: int| 0 <= r < p implies page_lacks_id(#[trigger] d.pages[r], id) by {
        assert forall|k: int| 0 <= k < d.pages[r].blocks.len() implies d.pages[r].blocks[k].id != id by {
            lemma_built_block_id(d, r, k);
            if d.pages[r].blocks[k].id == id {
                lemma_block_id_injective(r as usize, k as nat, p as usize, i as nat);
            }
        }
    }
    assert forall|k: int| 0 <= k < i implies d.pages[p].blocks[k].id != id by {
        lemma_built_block_id(d, p, k);
        if d.pages[p].blocks[k].id == id {
            lemma_block_id_injective(p as usize, k as nat, p as usize, i as nat);
        }
    }
}

/// Decodes the five entities that HTML escaping writes (`&amp;`, `&lt;`,
/// `&gt;`, `&quot;`, `&#39;`), reading left to right; every other character
/// stands for itself.
pub open spec fn html_unescape(s: Seq<char>) -> Seq<char>
    decreases s.len(),
{
    if s.len() == 0 {
        Seq::empty()
    } else if s[0] == '&' && s.len() >= 5 && seq_starts_with(s, "&amp;"@) {
        seq!['&'] + html_unescape(s.skip(5))
    } else if s[0] == '&' && s.len() >= 4 && seq_starts_with(s, "&lt;"@) {
        seq!['<'] + html_unescape(s.skip(4))
    } else if s[0] == '&' && s.len() >= 4 && seq_starts_with(s, "&gt;"@) {
        seq!['>'] + html_unescape(s.skip(4))
    } else if s[0] == '&' && s.len() >= 6 && seq_starts_with(s, "&quot;"@) {
        seq!['"'] + html_unescape(s.skip(6))
    } else if s[0] == '&' && s.len() >= 5 && seq_starts_with(s, "&#39;"@) {
        seq!['\''] + html_unescape(s.skip(5))
    } else {
        seq![s[0]] + html_unescape(s.drop_first())
    }
}

proof fn lemma_unescape_one(c: char, t: Seq<char>)
    ensures
        html_unescape(html_escape_char(c) + t) == seq![c] + html_unescape(t),
{
    reveal_strlit("&amp;");
    reveal_strlit("&lt;");
    reveal_strlit("&gt;");
    reveal_strlit("&quot;");
    reveal_strlit("&#39;");
    let e = html_escape_char(c);
    let u = e + t;
    if c == '&' {
        assert(seq_starts_with(u, "&amp;"@)) by {
            assert(u.subrange(0, 5) =~= "&amp;"@);
        }
        assert(u.skip(5) =~= t);
    } else if c == '<' {
        assert(!seq_starts_with(u, "&amp;"@)) by {
            assert(u[1] != "&amp;"@[1]);
            if seq_starts_with(u, "&amp;"@) {
                assert(u.subrange(0, 5)[1] == u[1]);
            }
        }
        assert(seq_starts_with(u, "&lt;"@)) by {
            assert(u.subrange(0, 4) =~= "&lt;"@);
        }
        assert(u.skip(4) =~= t);
    } else if c == '>' {
        assert(!seq_starts_with(u, "&amp;"@)) by {
            if seq_starts_with(u, "&amp;"@) {
                assert(u.subrange(0, 5)[1] == u[1]);
            }
        }
        assert(!seq_starts_with(u, "&lt;"@)) by {
            if seq_starts_with(u, "&lt;"@) {
                assert(u.subrange(0, 4)[1] == u[1]);
            }
        }
        assert(seq_starts_with(u, "&gt;"@)) by {
            assert(u.subrange(0, 4) =~= "&gt;"@);
        }
        assert(u.skip(4) =~= t);
    } else if c == '"' {
        assert(!seq_starts_with(u, "&amp;"@)) by {
            if seq_starts_with(u, "&amp;"@) {
                assert(u.subrange(0, 5)[1] == u[1]);
            }
        }
        assert(!seq_starts_with(u, "&lt;"@)) by {
            if seq_starts_with(u, "&lt;"@) {
                assert(u.subrange(0, 4)[1] == u[1]);
            }
        }
        assert(!seq_starts_with(u, "&gt;"@)) by {
            if seq_starts_with(u, "&gt;"@) {
                assert(u.subrange(0, 4)[1] == u[1]);
            }
        }
        assert(seq_starts_with(u, "&quot;"@)) by {
            assert(u.subrange(0, 6) =~= "&quot;"@);
        }
        assert(u.skip(6) =~= t);
    } else if c == '\'' {
        assert(!seq_starts_with(u, "&amp;"@)) by {
            if seq_starts_with(u, "&amp;"@) {
                assert(u.subrange(0, 5)[1] == u[1]);
            }
        }
        assert(!seq_starts_with(u, "&lt;"@)) by {
            if seq_starts_with(u, "&lt;"@) {
                assert(u.subrange(0, 4)[1] == u[1]);
            }
        }
        assert(!seq_starts_with(u, "&gt;"@)) by {
            if seq_starts_with(u, "&gt;"@) {
                assert(u.subrange(0, 4)[1] == u[1]);
            }
        }
        assert(!seq_starts_with(u, "&quot;"@)) by {
            if seq_starts_with(u, "&quot;"@) {
                assert(u.subrange(0, 6)[1] == u[1]);
            }
        }
        assert(seq_starts_with(u, "&#39;"@)) by {
            assert(u.subrange(0, 5) =~= "&#39;"@);
        }
        assert(u.skip(5) =~= t);
    } else {
        assert(u[0] == c);
        assert(u.drop_first() =~= t);
    }
}

proof fn lemma_unescape_escaped(s: Seq<char>, t: Seq<char>)
    ensures
        html_unescape(html_escape_seq(s) + t) == s + html_unescape(t),
    decreases s.len(),
{
    if s.len() == 0 {
        assert(html_escape_seq(s) + t =~= t);
        assert(s + html_unescape(t) =~= html_unescape(t));
    } else {
        let c = s.last();
        let rest = html_escape_char(c) + t;
        assert(html_escape_seq(s) + t =~= html_escape_seq(s.drop_last()) + rest);
        lemma_unescape_escaped(s.drop_last(), rest);
        lemma_unescape_one(c, t);
        assert(s.drop_last() + (seq![c] + html_unescape(t)) =~= s + html_unescape(t));
    }
}

/// Escaping loses nothing: decoding the escaped text gives the text back.
pub proof fn law_html_unescape_inverts_escape(s: Seq<char>)
    ensures
        html_unescape(html_escape_seq(s)) == s,
{
    lemma_unescape_escaped(s, Seq::empty());
    assert(html_escape_seq(s) + Seq::<char>::empty() =~= html_escape_seq(s));
    assert(s + html_unescape(Seq::<char>::empty()) =~= s);
}

/// Text without `&`, `<`, `>`, `"` or `'` is left as it is.
pub proof fn law_html_escape_keeps_plain_text(s: Seq<char>)
    requires
        forall|i: int|
            0 <= i < s.len() ==> {
                let c = #[trigger] s[i];
                c != '&' && c != '<' && c != '>' && c != '"' && c != '\''
            },
    ensures
        html_escape_seq(s) == s,
    decreases s.len(),
{
    if s.len() > 0 {
        let t = s.drop_last();
        assert forall|i: int| 0 <= i < t.len() implies {
            let c = #[trigger] t[i];
            c != '&' && c != '<' && c != '>' && c != '"' && c != '\''
        } by {
            assert(t[i] == s[i]);
        }
        law_html_escape_keeps_plain_text(t);
        let c = s[s.len() - 1];
        assert(html_escape_char(c) == seq![c]);
        assert(t.push(c) =~= s);
    }
}

/// The text with each occurrence of `pat` replaced by `rep`, taking the
/// occurrences from left to right without overlap, as `str::replace` does.
pub open spec fn replace_all(s: Seq<char>, pat: Seq<char>, rep: Seq<char>) -> Seq<char>
    decreases s.len(),
{
    if s.len() == 0 {
        Seq::empty()
    } else if pat.len() > 0 && seq_starts_with(s, pat) {
        rep + replace_all(s.skip(pat.len() as int), pat, rep)
    } else {
        seq![s[0]] + replace_all(s.drop_first(), pat, rep)
    }
}

/// Decoding by replacement: `&lt;`, `&gt;`, `&quot;` and `&#39;` become
/// `<`, `>`, `"` and `'`, and afterwards `&amp;` becomes `&`.
pub open spec fn html_unescape_by_replacing(s: Seq<char>) -> Seq<char> {
    replace_all(
        replace_all(
            replace_all(
                replace_all(replace_all(s, "&lt;"@, seq!['<']), "&gt;"@, seq!['>']),
                "&quot;"@,
                seq!['"'],
            ),
            "&#39;"@,
            seq!['\''],
        ),
        "&amp;"@,
        seq!['&'],
    )
}

/// The entity that pass `k` of the decoding replaces.
spec fn pass_pattern(k: nat) -> Seq<char> {
    if k == 0 {
        "&lt;"@
    } else if k == 1 {
        "&gt;"@
    } else if k == 2 {
        "&quot;"@
    } else if k == 3 {
        "&#39;"@
    } else {
        "&amp;"@
    }
}

/// The character that pass `k` of the decoding writes.
spec fn pass_char(k: nat) -> char {
    if k == 0 {
        '<'
    } else if k == 1 {
        '>'
    } else if k == 2 {
        '"'
    } else if k == 3 {
        '\''
    } else {
        '&'
    }
}

/// The pass that decodes the escape of `c`; 5 for a character that is not
/// escaped.
spec fn pass_of(c: char) -> nat {
    if c == '<' {
        0
    } else if c == '>' {
        1
    } else if c == '"' {
        2
    } else if c == '\'' {
        3
    } else if c == '&' {
        4
    } else {
        5
    }
}

/// What stands for `c` after the first `k` passes of the decoding.
spec fn stage_char(k: nat, c: char) -> Seq<char> {
    if pass_of(c) < k {
        seq![c]
    } else {
        html_escape_char(c)
    }
}

spec fn stage_seq(k: nat, s: Seq<char>) -> Seq<char>
    decreases s.len(),
{
    if s.len() == 0 {
        Seq::empty()
    } else {
        stage_seq(k, s.drop_last()) + stage_char(k, s.last())
    }
}

proof fn lemma_replace_plain(u: Seq<char>, t: Seq<char>, pat: Seq<char>, rep: Seq<char>)
    requires
        pat.len() > 0,
        pat[0] == '&',
        forall|i: int| 0 <= i < u.len() ==> u[i] != '&',
    ensures
        replace_all(u + t, pat, rep) == u + replace_all(t, pat, rep),
    decreases u.len(),
{
    if u.len() == 0 {
        assert(u + t =~= t);
        assert(u + replace_all(t, pat, rep) =~= replace_all(t, pat, rep));
    } else {
        let s = u + t;
        assert(s[0] == u[0]);
        assert(!seq_starts_with(s, pat)) by {
            if seq_starts_with(s, pat) {
                assert(s.subrange(0, pat.len() as int)[0] == s[0]);
            }
        }
        assert(s.drop_first() =~= u.drop_first() + t);
        lemma_replace_plain(u.drop_first(), t, pat, rep);
        assert(seq![u[0]] + (u.drop_first() + replace_all(t, pat, rep)) =~= u + replace_all(
            t,
            pat,
            rep,
        ));
    }
}

proof fn lemma_replace_other_entity(u: Seq<char>, t: Seq<char>, pat: Seq<char>, rep: Seq<char>)
    requires
        pat.len() >= 2,
        pat[0] == '&',
        u.len() >= 2,
        u[0] == '&',
        u[1] != pat[1],
        forall|i: int| 1 <= i < u.len() ==> u[i] != '&',
    ensures
        replace_all(u + t, pat, rep) == u + replace_all(t, pat, rep),
{
    let s = u + t;
    assert(!seq_starts_with(s, pat)) by {
        if seq_starts_with(s, pat) {
            assert(s.subrange(0, pat.len() as int)[1] == s[1]);
        }
    }
    assert(s.drop_first() =~= u.drop_first() + t);
    lemma_replace_plain(u.drop_first(), t, pat, rep);
    assert(seq![u[0]] + (u.drop_first() + replace_all(t, pat, rep)) =~= u + replace_all(
        t,
        pat,
        rep,
    ));
}

proof fn lemma_replace_match(t: Seq<char>, pat: Seq<char>, rep: Seq<char>)
    requires
        pat.len() > 0,
    ensures
        replace_all(pat + t, pat, rep) == rep + replace_all(t, pat, rep),
{
    let s = pat + t;
    assert(s.subrange(0, pat.len() as int) =~= pat);
    assert(s.skip(pat.len() as int) =~= t);
}

proof fn lemma_stage_char_step(k: nat, c: char, t: Seq<char>)
    requires
        k < 5,
    ensures
        replace_all(stage_char(k, c) + t, pass_pattern(k), seq![pass_char(k)]) == stage_char(
            k + 1,
            c,
        ) + replace_all(t, pass_pattern(k), seq![pass_char(k)]),
{
    reveal_strlit("&amp;");
    reveal_strlit("&lt;");
    reveal_strlit("&gt;");
    reveal_strlit("&quot;");
    reveal_strlit("&#39;");
    let u = stage_char(k, c);
    let pat = pass_pattern(k);
    let rep = seq![pass_char(k)];
    if pass_of(c) == k {
        assert(u == pat);
        lemma_replace_match(t, pat, rep);
    } else if pass_of(c) < k || pass_of(c) == 5 {
        assert(u == seq![c]);
        lemma_replace_plain(u, t, pat, rep);
    } else {
        lemma_replace_other_entity(u, t, pat, rep);
    }
}

proof fn lemma_stage_step(k: nat, s: Seq<char>, t: Seq<char>)
    requires
        k < 5,
    ensures
        replace_all(stage_seq(k, s) + t, pass_pattern(k), seq![pass_char(k)]) == stage_seq(
            k + 1,
            s,
        ) + replace_all(t, pass_pattern(k), seq![pass_char(k)]),
    decreases s.len(),
{
    let pat = pass_pattern(k);
    let rep = seq![pass_char(k)];
    if s.len() == 0 {
        assert(stage_seq(k, s) + t =~= t);
        assert(stage_seq((k + 1) as nat, s) + replace_all(t, pat, rep) =~= replace_all(t, pat, rep));
    } else {
        let c = s.last();
        let rest = stage_char(k, c) + t;
        assert(stage_seq(k, s) + t =~= stage_seq(k, s.drop_last()) + rest);
        lemma_stage_step(k, s.drop_last(), rest);
        lemma_stage_char_step(k, c, t);
        assert(stage_seq((k + 1) as nat, s.drop_last()) + (stage_char((k + 1) as nat, c)
            + replace_all(t, pat, rep)) =~= stage_seq((k + 1) as nat, s) + replace_all(t, pat, rep));
    }
}

proof fn lemma_stage_pass(k: nat, s: Seq<char>)
    requires
        k < 5,
    ensures
        replace_all(stage_seq(k, s), pass_pattern(k), seq![pass_char(k)]) == stage_seq(k + 1, s),
{
    lemma_stage_step(k, s, Seq::empty());
    assert(stage_seq(k, s) + Seq::<char>::empty() =~= stage_seq(k, s));
    assert(stage_seq((k + 1) as nat, s) + Seq::<char>::empty() =~= stage_seq((k + 1) as nat, s));
}

proof fn lemma_stage_ends(s: Seq<char>)
    ensures
        stage_seq(0, s) == html_escape_seq(s),
        stage_seq(5, s) == s,
    decreases s.len(),
{
    if s.len() > 0 {
        lemma_stage_ends(s.drop_last());
        assert(s.drop_last() + seq![s.last()] =~= s);
    }
}

/// Escaping loses nothing under decoding by replacement either: replacing
/// `&lt;`, `&gt;`, `&quot;` and `&#39;` by `<`, `>`, `"` and `'`, and
/// afterwards `&amp;` by `&`, gives the text back.
pub proof fn law_html_unescape_by_replacing_inverts_escape(s: Seq<char>)
    ensures
        html_unescape_by_replacing(html_escape_seq(s)) == s,
{
    lemma_stage_ends(s);
    lemma_stage_pass(0, s);
    lemma_stage_pass(1, s);
    lemma_stage_pass(2, s);
    lemma_stage_pass(3, s);
    lemma_stage_pass(4, s);
}

} // verus!
