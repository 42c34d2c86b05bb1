//! The line diff between the converted Markdown and a proposed revision,
//! laid out as the rows of the diff view.
use crate::text::{append_str, chars_of, string_from_range};
use similar::{ChangeTag, TextDiff};
use vstd::prelude::*;

verus! {

#[derive(Clone, Copy, Debug, PartialEq, Eq, Structural)]
pub enum ChangeKind {
    Equal,
    Delete,
    Insert,
}

/// The changes that `similar` reports for a line diff of `old` and `new`:
/// each change's kind and the line it carries, line break included.
pub uninterp spec fn line_changes(old: Seq<char>, new: Seq<char>) -> Seq<(ChangeKind, Seq<char>)>;

pub open spec fn change_view(c: (ChangeKind, String)) -> (ChangeKind, Seq<char>) {
    (c.0, c.1@)
}

/// `similar::TextDiff::from_lines(old, new).iter_all_changes()`, each
/// change taken as its tag and its value. With no deadline set, the diff
/// depends on the two texts alone; which changes it reports (the Myers
/// algorithm) is named, not stated.
#[verifier::external_body]
fn similar_line_changes(old: &str, new: &str) -> (changes: Vec<(ChangeKind, String)>)
    ensures
        changes@.map_values(|c: (ChangeKind, String)| change_view(c)) == line_changes(old@, new@),
{
    let diff = TextDiff::from_lines(old, new);
    diff.iter_all_changes().map(
        |c| {
            let kind = match c.tag() {
                ChangeTag::Equal => ChangeKind::Equal,
                ChangeTag::Delete => ChangeKind::Delete,
                ChangeTag::Insert => ChangeKind::Insert,
            };
            (kind, c.value().to_string())
        },
    ).collect()
}

/// One row of the diff view: its kind, and its text with the marker in
/// front (`- ` deleted, `+ ` inserted, two spaces unchanged).
#[derive(Debug)]
pub struct DiffRow {
    pub kind: ChangeKind,
    pub text: String,
}

pub struct DiffRowV {
    pub kind: ChangeKind,
    pub text: Seq<char>,
}

impl View for DiffRow {
    type V = DiffRowV;

    open spec fn view(&self) -> DiffRowV {
        DiffRowV { kind: self.kind, text: self.text@ }
    }
}

/// `s` without its trailing line breaks (`trim_end_matches('\n')`).
pub open spec fn strip_line_breaks(s: Seq<char>) -> Seq<char>
    decreases s.len(),
{
    if s.len() > 0 && s.last() == '\n' {
        strip_line_breaks(s.drop_last())
    } else {
        s
    }
}

pub open spec fn row_marker(k: ChangeKind) -> Seq<char> {
    match k {
        ChangeKind::Delete => "- "@,
        ChangeKind::Insert => "+ "@,
        ChangeKind::Equal => "  "@,
    }
}

pub open spec fn diff_row(c: (ChangeKind, Seq<char>)) -> DiffRowV {
    DiffRowV { kind: c.0, text: row_marker(c.0) + strip_line_breaks(c.1) }
}

fn strip_breaks(s: &str) -> (r: String)
    ensures
        r@ == strip_line_breaks(s@),
{
    let v = chars_of(s);
    let mut j: usize = v.len();
    assert(v@.take(j as int) =~= v@);
    while j > 0 && v[j - 1] == '\n'
        invariant
            j <= v@.len(),
            strip_line_breaks(v@) == strip_line_breaks(v@.take(j as int)),
        decreases j,
    {
        assert(v@.take(j as int).drop_last() =~= v@.take(j - 1));
        j = j - 1;
    }
    assert(v@.take(j as int) =~= v@.subrange(0, j as int));
    string_from_range(&v, 0, j)
}

fn marked_row(kind: ChangeKind, line: &str) -> (row: DiffRow)
    ensures
        row@ == diff_row((kind, line@)),
{
    let mut text = match kind {
        ChangeKind::Delete => String::from_str("- "),
        ChangeKind::Insert => String::from_str("+ "),
        ChangeKind::Equal => String::from_str("  "),
    };
    let body = strip_breaks(line);
    append_str(&mut text, body.as_str());
    DiffRow { kind, text }
}

/// The rows of the diff view for the given changes, one row per change.
pub fn rows_of_changes(changes: &Vec<(ChangeKind, String)>) -> (rows: Vec<DiffRow>)
    ensures
        rows@.map_values(|r: DiffRow| r@) == changes@.map_values(
            |c: (ChangeKind, String)| diff_row(change_view(c)),
        ),
{
    let mut rows: Vec<DiffRow> = Vec::new();
    let mut i: usize = 0;
    while i < changes.len()
        invariant
            i <= changes@.len(),
            rows@.map_values(|r: DiffRow| r@) =~= changes@.take(i as int).map_values(
                |c: (ChangeKind, String)| diff_row(change_view(c)),
            ),
        decreases changes@.len() - i,
    {
        let row = marked_row(changes[i].0, changes[i].1.as_str());
        let ghost before = rows@;
        rows.push(row);
        assert(rows@.map_values(|r: DiffRow| r@) =~= before.map_values(|r: DiffRow| r@).push(
            row@,
        ));
        assert(changes@.take(i + 1) =~= changes@.take(i as int).push(changes@[i as int]));
        i = i + 1;
    }
    assert(changes@.take(i as int) =~= changes@);
    rows
}

/// The rows of the diff view between the current Markdown and the proposed
/// one: one row per change of the line diff, in order.
pub fn diff_rows(current: &str, proposed: &str) -> (rows: Vec<DiffRow>)
    ensures
        rows@.map_values(|r: DiffRow| r@) == line_changes(current@, proposed@).map_values(
            |c: (ChangeKind, Seq<char>)| diff_row(c),
        ),
{
    let changes = similar_line_changes(current, proposed);
    let rows = rows_of_changes(&changes);
    assert(changes@.map_values(|c: (ChangeKind, String)| diff_row(change_view(c))) =~= changes@.map_values(
        |c: (ChangeKind, String)| change_view(c),
    ).map_values(|c: (ChangeKind, Seq<char>)| diff_row(c)));
    rows
}

} // verus!
