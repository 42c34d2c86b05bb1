//! Properties of the formatting rules, stated by what the output looks like:
//! the header separator of a merged table, the heading level that a font
//! size gives, the bullets that open a list item, and how a heading's level
//! shows in the table of contents and in Markdown.
use crate::processors::heading::{flat_spans, heading_rule, is_bold_font, size_sum};
use crate::processors::line_merge::{merge_two, table_separator};
use crate::processors::list::list_rule;
use crate::renderers::markdown::md_block;
use crate::schema::{BlockType, BlockV};
use crate::text::{
    count_char, is_digit, is_ws, line_count, seq_starts_with, trim_seq, trim_start_seq, word_count,
};
use vstd::prelude::*;

verus! {

/// A header separator of `cols` columns: a bar, then `cols` cells ` --- |`.
pub open spec fn is_separator_of(sep: Seq<char>, cols: int) -> bool {
    &&& sep.len() == 1 + 6 * cols
    &&& sep[0] == '|'
    &&& forall|j: int| 0 <= j < cols ==> #[trigger] sep.subrange(1 + 6 * j, 7 + 6 * j) == " --- |"@
}

proof fn lemma_separator_shape(k: nat)
    ensures
        is_separator_of(table_separator(k), k as int),
    decreases k,
{
    reveal_strlit("|");
    reveal_strlit(" --- |");
    if k > 0 {
        let prev = table_separator((k - 1) as nat);
        lemma_separator_shape((k - 1) as nat);
        let s = table_separator(k);
        assert(s == prev + " --- |"@);
        assert forall|j: int| 0 <= j < k implies #[trigger] s.subrange(1 + 6 * j, 7 + 6 * j)
            == " --- |"@ by {
            if j < k - 1 {
                assert(s.subrange(1 + 6 * j, 7 + 6 * j) =~= prev.subrange(1 + 6 * j, 7 + 6 * j));
            } else {
                assert(s.subrange(1 + 6 * j, 7 + 6 * j) =~= " --- |"@);
            }
        }
    }
}

/// Merging a one-line table row with the row below it puts a header
/// separator between them with as many columns as the row: one fewer than
/// the row's bars. The merged text is the trimmed row, a line break, the
/// separator, a line break and the trimmed row below.
pub proof fn law_table_merge_separator_matches_header(cur: BlockV, b: BlockV)
    requires
        cur.block_type == BlockType::Table,
        line_count(cur.text) == 1,
        count_char(cur.text, '|') >= 1,
    ensures
        exists|sep: Seq<char>|
            #[trigger] is_separator_of(sep, count_char(cur.text, '|') - 1) && merge_two(cur, b).text
                == trim_seq(cur.text) + "\n"@ + sep + "\n"@ + trim_seq(b.text),
{
    let cols = (count_char(cur.text, '|') - 1) as nat;
    lemma_separator_shape(cols);
    let sep = table_separator(cols);
    assert(is_separator_of(sep, count_char(cur.text, '|') - 1));
}

/// The levels of the heading types: `HeadingN` has level `N`, so that two
/// heading types never share a level, and a deeper heading has a larger
/// level.
pub proof fn law_heading_levels_distinct_and_ordered(s: BlockType, t: BlockType)
    requires
        s.spec_is_heading(),
        t.spec_is_heading(),
    ensures
        1 <= s.heading_level() <= 6,
        s != t ==> s.heading_level() != t.heading_level(),
        BlockType::Heading1.heading_level() == 1,
        BlockType::Heading1.heading_level() < BlockType::Heading2.heading_level(),
        BlockType::Heading2.heading_level() < BlockType::Heading3.heading_level(),
        BlockType::Heading3.heading_level() < BlockType::Heading4.heading_level(),
        BlockType::Heading4.heading_level() < BlockType::Heading5.heading_level(),
        BlockType::Heading5.heading_level() < BlockType::Heading6.heading_level(),
{
}

/// `n` copies of `#`.
pub open spec fn hashes(n: nat) -> Seq<char> {
    Seq::new(n, |i: int| '#')
}

/// A heading renders in Markdown as one `#` per level of its type (the
/// level that the table of contents gives it), a space, its trimmed text
/// and a blank line.
pub proof fn law_markdown_heading_shows_level(b: BlockV)
    requires
        b.block_type.spec_is_heading(),
    ensures
        md_block(b) == hashes(b.block_type.heading_level() as nat) + " "@ + trim_seq(b.text)
            + "\n\n"@,
{
    reveal_strlit("# ");
    reveal_strlit("## ");
    reveal_strlit("### ");
    reveal_strlit("#### ");
    reveal_strlit("##### ");
    reveal_strlit("###### ");
    reveal_strlit(" ");
    let n = b.block_type.heading_level() as nat;
    let mark: Seq<char> = match b.block_type {
        BlockType::Heading1 => "# "@,
        BlockType::Heading2 => "## "@,
        BlockType::Heading3 => "### "@,
        BlockType::Heading4 => "#### "@,
        BlockType::Heading5 => "##### "@,
        _ => "###### "@,
    };
    assert(mark =~= hashes(n) + " "@);
    assert(md_block(b) == mark + trim_seq(b.text) + "\n\n"@);
}

/// A short single-line text block becomes a heading by the average font
/// size of its spans (sizes in hundredths of a point): level 1 from 16
/// points, level 2 from 13 points, level 3 from 11.5 points when a span's
/// font is bold; below that, or without spans (taken as 10 points), it stays
/// as it is. Only the type changes.
pub proof fn law_heading_level_from_font_size(b: BlockV)
    requires
        b.block_type == BlockType::Text,
        0 < word_count(trim_seq(b.text)) <= 12,
        b.lines.len() <= 1,
    ensures
        ({
            let spans = flat_spans(b.lines);
            let n = spans.len() as int;
            let total = size_sum(spans);
            let bold = exists|i: int|
                0 <= i < spans.len() && is_bold_font(#[trigger] spans[i].font_name);
            &&& n > 0 && total >= 1600 * n ==> heading_rule(b) == BlockV {
                block_type: BlockType::Heading1,
                ..b
            }
            &&& n > 0 && 1300 * n <= total < 1600 * n ==> heading_rule(b) == BlockV {
                block_type: BlockType::Heading2,
                ..b
            }
            &&& n > 0 && 1150 * n <= total < 1300 * n && bold ==> heading_rule(b) == BlockV {
                block_type: BlockType::Heading3,
                ..b
            }
            &&& (n == 0 || total < 1150 * n || (total < 1300 * n && !bold)) ==> heading_rule(b) == b
        }),
{
}

/// A block that is not text, has no words or more than twelve, or has more
/// than one line is left as it is by the heading rule.
pub proof fn law_heading_leaves_other_blocks(b: BlockV)
    requires
        b.block_type != BlockType::Text || word_count(trim_seq(b.text)) == 0 || word_count(
            trim_seq(b.text),
        ) > 12 || b.lines.len() > 1,
    ensures
        heading_rule(b) == b,
{
}

/// The bullets that open a list item.
pub open spec fn is_list_bullet(s: Seq<char>) -> bool {
    ||| s == "* "@
    ||| s == "- "@
    ||| s == "• "@
    ||| s == "+ "@
    ||| s == "◦ "@
    ||| s == "▪ "@
}

proof fn lemma_starts_first(t: Seq<char>, p: Seq<char>)
    requires
        p.len() > 0,
        seq_starts_with(t, p),
    ensures
        t[0] == p[0],
{
    assert(t.subrange(0, p.len() as int)[0] == t[0]);
}

/// A text block whose text, after leading whitespace, begins with a bullet
/// (`* `, `- `, `• `, `+ `, `◦ ` or `▪ `) becomes a list item whose text is
/// what follows the bullet.
pub proof fn law_list_bullet_opens_item(b: BlockV, bullet: Seq<char>)
    requires
        b.block_type == BlockType::Text,
        is_list_bullet(bullet),
        seq_starts_with(trim_start_seq(b.text), bullet),
    ensures
        bullet.len() == 2,
        list_rule(b) == (BlockV {
            block_type: BlockType::ListItem,
            text: trim_start_seq(b.text).skip(bullet.len() as int),
            ..b
        }),
{
    reveal_strlit("* ");
    reveal_strlit("- ");
    reveal_strlit("• ");
    reveal_strlit("+ ");
    reveal_strlit("◦ ");
    reveal_strlit("▪ ");
    reveal_with_fuel(crate::processors::list::first_bullet, 7);
    let t = trim_start_seq(b.text);
    lemma_starts_first(t, bullet);
    assert forall|p: Seq<char>| is_list_bullet(p) && p != bullet implies !seq_starts_with(t, p) by {
        if seq_starts_with(t, p) {
            lemma_starts_first(t, p);
        }
    }
}

proof fn lemma_no_bullet(t: Seq<char>)
    requires
        forall|p: Seq<char>| is_list_bullet(p) ==> !seq_starts_with(t, p),
    ensures
        crate::processors::list::first_bullet(t, 6) is None,
{
    reveal_with_fuel(crate::processors::list::first_bullet, 7);
    assert(is_list_bullet("* "@));
    assert(is_list_bullet("- "@));
    assert(is_list_bullet("• "@));
    assert(is_list_bullet("+ "@));
    assert(is_list_bullet("◦ "@));
    assert(is_list_bullet("▪ "@));
}

/// A text block whose text, after leading whitespace, begins with digits, a
/// dot and a whitespace character becomes a list item whose text is what
/// follows that whitespace character.
pub proof fn law_numbered_marker_opens_item(b: BlockV, i: int)
    requires
        b.block_type == BlockType::Text,
        0 < i,
        i + 1 < trim_start_seq(b.text).len(),
        forall|j: int| 0 <= j < i ==> is_digit(#[trigger] trim_start_seq(b.text)[j]),
        trim_start_seq(b.text)[i] == '.',
        is_ws(trim_start_seq(b.text)[i + 1]),
    ensures
        list_rule(b) == (BlockV {
            block_type: BlockType::ListItem,
            text: trim_start_seq(b.text).skip(i + 2),
            ..b
        }),
{
    reveal_strlit("* ");
    reveal_strlit("- ");
    reveal_strlit("• ");
    reveal_strlit("+ ");
    reveal_strlit("◦ ");
    reveal_strlit("▪ ");
    reveal_with_fuel(crate::processors::list::first_bullet, 7);
    let t = trim_start_seq(b.text);
    assert(is_digit(t[0]));
    assert forall|p: Seq<char>| is_list_bullet(p) implies !seq_starts_with(t, p) by {
        if seq_starts_with(t, p) {
            lemma_starts_first(t, p);
        }
    }
    lemma_no_bullet(t);
    crate::processors::list::lemma_leading_digits(t, i);
}

/// A text block whose text, after leading whitespace, is empty or begins
/// with neither a bullet nor a digit is left as it is.
pub proof fn law_list_leaves_plain_text(b: BlockV)
    requires
        b.block_type == BlockType::Text,
        trim_start_seq(b.text).len() == 0 || !is_digit(trim_start_seq(b.text)[0]),
        forall|p: Seq<char>| is_list_bullet(p) ==> !seq_starts_with(trim_start_seq(b.text), p),
    ensures
        list_rule(b) == b,
{
    reveal_strlit("* ");
    reveal_strlit("- ");
    reveal_strlit("• ");
    reveal_strlit("+ ");
    reveal_strlit("◦ ");
    reveal_strlit("▪ ");
    reveal_with_fuel(crate::processors::list::first_bullet, 7);
    let t = trim_start_seq(b.text);
    lemma_no_bullet(t);
    assert(crate::processors::list::leading_digits(t) == 0);
}

/// Merging keeps the first block's id and type, joins the lines in order
/// and covers both boxes; text blocks are joined with one space, and a
/// table of more than one line takes the next row after a line break.
pub proof fn law_merge_joins_blocks(cur: BlockV, b: BlockV)
    ensures
        merge_two(cur, b).id == cur.id,
        merge_two(cur, b).block_type == cur.block_type,
        merge_two(cur, b).lines == cur.lines + b.lines,
        merge_two(cur, b).bbox == cur.bbox.union(b.bbox),
        cur.block_type == BlockType::Text ==> merge_two(cur, b).text == trim_seq(cur.text) + " "@
            + trim_seq(b.text),
        cur.block_type == BlockType::Table && line_count(cur.text) != 1 ==> merge_two(cur, b).text
            == trim_seq(cur.text) + "\n"@ + trim_seq(b.text),
{
}

} // verus!
