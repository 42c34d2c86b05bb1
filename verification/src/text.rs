//! Character-level text utilities: Unicode whitespace, trimming, searching,
//! decimal formatting and string building, each with a specification over
//! the `Seq<char>` view of a string.
use vstd::prelude::*;
use vstd::std_specs::iter::IteratorSpec;

verus! {

broadcast use vstd::string::group_string_axioms;

/// Unicode `White_Space`, the property that `char::is_whitespace` tests.
pub open spec fn is_ws(c: char) -> bool {
    ||| c == ' '
    ||| ('\t' <= c && c <= '\r')
    ||| c == '\u{85}'
    ||| c == '\u{A0}'
    ||| c == '\u{1680}'
    ||| ('\u{2000}' <= c && c <= '\u{200A}')
    ||| c == '\u{2028}'
    ||| c == '\u{2029}'
    ||| c == '\u{202F}'
    ||| c == '\u{205F}'
    ||| c == '\u{3000}'
}

pub fn is_whitespace(c: char) -> (b: bool)
    ensures
        b == is_ws(c),
{
    c == ' ' || ('\t' <= c && c <= '\r') || c == '\u{85}' || c == '\u{A0}' || c == '\u{1680}'
        || ('\u{2000}' <= c && c <= '\u{200A}') || c == '\u{2028}' || c == '\u{2029}'
        || c == '\u{202F}' || c == '\u{205F}' || c == '\u{3000}'
}

pub open spec fn is_digit(c: char) -> bool {
    '0' <= c && c <= '9'
}

pub fn is_ascii_digit(c: char) -> (b: bool)
    ensures
        b == is_digit(c),
{
    '0' <= c && c <= '9'
}

/// The string without its leading whitespace.
pub open spec fn trim_start_seq(s: Seq<char>) -> Seq<char>
    decreases s.len(),
{
    if s.len() > 0 && is_ws(s[0]) {
        trim_start_seq(s.drop_first())
    } else {
        s
    }
}

/// The string without its trailing whitespace.
pub open spec fn trim_end_seq(s: Seq<char>) -> Seq<char>
    decreases s.len(),
{
    if s.len() > 0 && is_ws(s.last()) {
        trim_end_seq(s.drop_last())
    } else {
        s
    }
}

/// The string without leading and trailing whitespace.
pub open spec fn trim_seq(s: Seq<char>) -> Seq<char> {
    trim_end_seq(trim_start_seq(s))
}

/// Appends one character (`String::push`).
#[verifier::external_body]
pub(crate) fn push_char(s: &mut String, c: char)
    ensures
        final(s)@ == old(s)@.push(c),
{
    s.push(c);
}

/// The characters of a string, in order.
pub fn chars_of(s: &str) -> (v: Vec<char>)
    ensures
        v@ == s@,
{
    let mut v: Vec<char> = Vec::new();
    let n = s.unicode_len();
    let mut it = s.chars();
    loop
        invariant
            it.obeys_prophetic_iter_laws(),
            s@ == v@ + it.remaining(),
            n == s@.len(),
        ensures
            v@ == s@,
        decreases n - v@.len(),
    {
        match it.next() {
            Some(c) => {
                v.push(c);
            },
            None => {
                assert(v@ + it.remaining() =~= v@);
                break ;
            },
        }
    }
    v
}

/// The string made of the characters `v[from..to]`.
pub fn string_from_range(v: &Vec<char>, from: usize, to: usize) -> (s: String)
    requires
        from <= to <= v@.len(),
    ensures
        s@ == v@.subrange(from as int, to as int),
{
    let mut s = String::new();
    let mut i = from;
    while i < to
        invariant
            from <= i <= to <= v@.len(),
            s@ == v@.subrange(from as int, i as int),
        decreases to - i,
    {
        push_char(&mut s, v[i]);
        assert(v@.subrange(from as int, i + 1) == v@.subrange(from as int, i as int).push(v@[i as int]));
        i = i + 1;
    }
    s
}

pub fn string_from_chars(v: &Vec<char>) -> (s: String)
    ensures
        s@ == v@,
{
    let s = string_from_range(v, 0, v.len());
    assert(v@.subrange(0, v@.len() as int) == v@);
    s
}

/// Index of the first non-whitespace character of `v` (or its length).
pub fn start_of_content(v: &Vec<char>) -> (i: usize)
    ensures
        i <= v@.len(),
        trim_start_seq(v@) == v@.subrange(i as int, v@.len() as int),
{
    let mut i: usize = 0;
    assert(v@.subrange(0, v@.len() as int) == v@);
    while i < v.len() && is_whitespace(v[i])
        invariant
            i <= v@.len(),
            trim_start_seq(v@) == trim_start_seq(v@.subrange(i as int, v@.len() as int)),
        decreases v@.len() - i,
    {
        assert(v@.subrange(i as int, v@.len() as int).drop_first() == v@.subrange(i + 1, v@.len() as int));
        i = i + 1;
    }
    proof {
        let rest = v@.subrange(i as int, v@.len() as int);
        if rest.len() > 0 {
            assert(rest[0] == v@[i as int]);
        }
    }
    i
}

/// Index just past the last non-whitespace character of `v[from..]`.
pub fn end_of_content(v: &Vec<char>, from: usize) -> (j: usize)
    requires
        from <= v@.len(),
    ensures
        from <= j <= v@.len(),
        trim_end_seq(v@.subrange(from as int, v@.len() as int)) == v@.subrange(from as int, j as int),
{
    let mut j: usize = v.len();
    while j > from && is_whitespace(v[j - 1])
        invariant
            from <= j <= v@.len(),
            trim_end_seq(v@.subrange(from as int, v@.len() as int)) == trim_end_seq(
                v@.subrange(from as int, j as int),
            ),
        decreases j,
    {
        assert(v@.subrange(from as int, j as int).drop_last() == v@.subrange(from as int, j - 1));
        j = j - 1;
    }
    proof {
        let rest = v@.subrange(from as int, j as int);
        if rest.len() > 0 {
            assert(rest.last() == v@[j - 1]);
        }
    }
    j
}

/// `str::trim`.
pub fn trim(s: &str) -> (r: String)
    ensures
        r@ == trim_seq(s@),
{
    let v = chars_of(s);
    let i = start_of_content(&v);
    let j = end_of_content(&v, i);
    string_from_range(&v, i, j)
}

/// `str::trim_start`.
pub fn trim_start(s: &str) -> (r: String)
    ensures
        r@ == trim_start_seq(s@),
{
    let v = chars_of(s);
    let i = start_of_content(&v);
    string_from_range(&v, i, v.len())
}

/// `str::trim_end`.
pub fn trim_end(s: &str) -> (r: String)
    ensures
        r@ == trim_end_seq(s@),
{
    let v = chars_of(s);
    let j = end_of_content(&v, 0);
    assert(v@.subrange(0, v@.len() as int) == v@);
    string_from_range(&v, 0, j)
}

/// Equality of two strings, character by character.
pub fn str_eq(a: &str, b: &str) -> (r: bool)
    ensures
        r == (a@ == b@),
{
    let va = chars_of(a);
    let vb = chars_of(b);
    if va.len() != vb.len() {
        return false;
    }
    let mut i: usize = 0;
    while i < va.len()
        invariant
            va@ == a@,
            vb@ == b@,
            va@.len() == vb@.len(),
            i <= va@.len(),
            forall|k: int| 0 <= k < i ==> va@[k] == vb@[k],
        decreases va@.len() - i,
    {
        if va[i] != vb[i] {
            return false;
        }
        i = i + 1;
    }
    assert(va@ =~= vb@);
    true
}

/// The parts joined, with `sep` between each two.
pub open spec fn join_seq(parts: Seq<Seq<char>>, sep: Seq<char>) -> Seq<char>
    decreases parts.len(),
{
    if parts.len() == 0 {
        Seq::empty()
    } else if parts.len() == 1 {
        parts[0]
    } else {
        join_seq(parts.drop_last(), sep) + sep + parts.last()
    }
}

/// Appends `t` to `s`.
pub fn append_str(s: &mut String, t: &str)
    ensures
        final(s)@ == old(s)@ + t@,
{
    s.append(t);
}

/// A string of the given characters.
pub fn from_str(t: &str) -> (s: String)
    ensures
        s@ == t@,
{
    String::from_str(t)
}

/// The character of a decimal digit `d < 10`.
pub open spec fn digit_char(d: nat) -> char {
    ((d + 48) as u8) as char
}

/// The decimal numeral of `n`, without leading zeros.
pub open spec fn decimal(n: nat) -> Seq<char>
    decreases n,
{
    if n < 10 {
        seq![digit_char(n)]
    } else {
        decimal(n / 10).push(digit_char(n % 10))
    }
}

/// The decimal numeral of `n`, with a leading `-` when it is negative.
pub open spec fn signed_decimal(n: int) -> Seq<char> {
    if n < 0 {
        seq!['-'] + decimal((-n) as nat)
    } else {
        decimal(n as nat)
    }
}

/// Appends the decimal numeral of `n`.
pub fn push_decimal(s: &mut String, n: u128)
    ensures
        final(s)@ == old(s)@ + decimal(n as nat),
    decreases n,
{
    if n >= 10 {
        push_decimal(s, n / 10);
    }
    let d: u8 = (n % 10) as u8;
    push_char(s, (d + 48u8) as char);
    assert(old(s)@ + decimal(n as nat) =~= if n >= 10 {
        old(s)@ + decimal((n / 10) as nat) + seq![digit_char((n % 10) as nat)]
    } else {
        old(s)@ + seq![digit_char((n % 10) as nat)]
    });
}

/// The decimal numeral of `n`.
pub fn u64_to_string(n: u64) -> (s: String)
    ensures
        s@ == decimal(n as nat),
{
    let mut s = String::new();
    push_decimal(&mut s, n as u128);
    assert(s@ =~= decimal(n as nat));
    s
}

/// The decimal numeral of `n`, signed.
pub fn i64_to_string(n: i64) -> (s: String)
    ensures
        s@ == signed_decimal(n as int),
{
    let mut s = String::new();
    if n < 0 {
        push_char(&mut s, '-');
        let m: u128 = (0i128 - n as i128) as u128;
        push_decimal(&mut s, m);
    } else {
        push_decimal(&mut s, n as u128);
        assert(s@ =~= decimal(n as nat));
    }
    s
}

/// `p` occurs in `s` at index `i`.
pub open spec fn occurs_at(s: Seq<char>, p: Seq<char>, i: int) -> bool {
    0 <= i && i + p.len() <= s.len() && s.subrange(i, i + p.len()) == p
}

pub open spec fn seq_starts_with(s: Seq<char>, p: Seq<char>) -> bool {
    occurs_at(s, p, 0)
}

pub open spec fn seq_ends_with(s: Seq<char>, p: Seq<char>) -> bool {
    p.len() <= s.len() && occurs_at(s, p, s.len() - p.len())
}

pub open spec fn seq_contains(s: Seq<char>, p: Seq<char>) -> bool {
    exists|i: int| occurs_at(s, p, i)
}

/// Whether `p` occurs in `v` at index `i`.
pub fn occurs_at_exec(v: &Vec<char>, p: &Vec<char>, i: usize) -> (b: bool)
    ensures
        b == occurs_at(v@, p@, i as int),
{
    if i > v.len() || p.len() > v.len() - i {
        return false;
    }
    let mut k: usize = 0;
    while k < p.len()
        invariant
            i + p@.len() <= v.len(),
            k <= p@.len(),
            forall|j: int| 0 <= j < k ==> v@[i + j] == p@[j],
        decreases p@.len() - k,
    {
        if v[i + k] != p[k] {
            assert(v@.subrange(i as int, i + p@.len())[k as int] != p@[k as int]);
            return false;
        }
        k = k + 1;
    }
    assert(v@.subrange(i as int, i + p@.len()) =~= p@);
    true
}

pub fn starts_with(v: &Vec<char>, p: &str) -> (b: bool)
    ensures
        b == seq_starts_with(v@, p@),
{
    let pv = chars_of(p);
    occurs_at_exec(v, &pv, 0)
}

pub fn ends_with(v: &Vec<char>, p: &str) -> (b: bool)
    ensures
        b == seq_ends_with(v@, p@),
{
    let pv = chars_of(p);
    if pv.len() > v.len() {
        return false;
    }
    occurs_at_exec(v, &pv, v.len() - pv.len())
}

pub fn contains(v: &Vec<char>, p: &str) -> (b: bool)
    ensures
        b == seq_contains(v@, p@),
{
    let pv = chars_of(p);
    if pv.len() > v.len() {
        return false;
    }
    if pv.len() == 0 {
        assert(v@.subrange(0, 0) =~= p@);
        assert(occurs_at(v@, p@, 0));
        return true;
    }
    let mut i: usize = 0;
    while i <= v.len() - pv.len()
        invariant
            pv@ == p@,
            0 < pv@.len() <= v@.len(),
            i <= v@.len() - pv@.len() + 1,
            forall|j: int| 0 <= j < i ==> !occurs_at(v@, p@, j),
        decreases v@.len() - pv@.len() + 1 - i,
    {
        if occurs_at_exec(v, &pv, i) {
            return true;
        }
        i = i + 1;
    }
    false
}

/// The number of times `c` occurs in `s`.
pub open spec fn count_char(s: Seq<char>, c: char) -> nat
    decreases s.len(),
{
    if s.len() == 0 {
        0
    } else {
        count_char(s.drop_last(), c) + if s.last() == c {
            1nat
        } else {
            0nat
        }
    }
}

pub fn count_char_exec(v: &Vec<char>, c: char) -> (n: usize)
    ensures
        n == count_char(v@, c),
{
    let mut n: usize = 0;
    let mut i: usize = 0;
    while i < v.len()
        invariant
            i <= v@.len(),
            n == count_char(v@.take(i as int), c),
            n <= i,
        decreases v@.len() - i,
    {
        assert(v@.take(i + 1).drop_last() =~= v@.take(i as int));
        if v[i] == c {
            n = n + 1;
        }
        i = i + 1;
    }
    assert(v@.take(v@.len() as int) =~= v@);
    n
}

/// The number of lines that `str::lines` yields: a line ends at each
/// `'\n'`, and a last line without one counts when it is not empty.
pub open spec fn line_count(s: Seq<char>) -> nat {
    count_char(s, '\n') + if s.len() > 0 && s.last() != '\n' {
        1nat
    } else {
        0nat
    }
}

pub fn line_count_exec(v: &Vec<char>) -> (n: usize)
    ensures
        n == line_count(v@),
{
    let nl = count_char_exec(v, '\n');
    if v.len() > 0 && v[v.len() - 1] != '\n' {
        assert(nl < v@.len()) by {
            lemma_count_char_le(v@, '\n');
            lemma_count_char_last(v@, '\n');
        }
        nl + 1
    } else {
        nl
    }
}

proof fn lemma_count_char_le(s: Seq<char>, c: char)
    ensures
        count_char(s, c) <= s.len(),
    decreases s.len(),
{
    if s.len() > 0 {
        lemma_count_char_le(s.drop_last(), c);
    }
}

proof fn lemma_count_char_last(s: Seq<char>, c: char)
    requires
        s.len() > 0,
        s.last() != c,
    ensures
        count_char(s, c) < s.len(),
{
    lemma_count_char_le(s.drop_last(), c);
}

/// The pieces of `s` between occurrences of `c`, as `str::split` yields them.
pub open spec fn split_on(s: Seq<char>, c: char) -> Seq<Seq<char>>
    decreases s.len(),
{
    if s.len() == 0 {
        seq![Seq::empty()]
    } else {
        let prev = split_on(s.drop_last(), c);
        if s.last() == c {
            prev.push(Seq::empty())
        } else {
            prev.update(prev.len() - 1, prev.last().push(s.last()))
        }
    }
}

proof fn lemma_split_on_nonempty(s: Seq<char>, c: char)
    ensures
        split_on(s, c).len() >= 1,
    decreases s.len(),
{
    if s.len() > 0 {
        lemma_split_on_nonempty(s.drop_last(), c);
    }
}

pub fn split_on_exec(v: &Vec<char>, c: char) -> (parts: Vec<Vec<char>>)
    ensures
        parts@.map_values(|p: Vec<char>| p@) == split_on(v@, c),
{
    let mut parts: Vec<Vec<char>> = Vec::new();
    let mut cur: Vec<char> = Vec::new();
    let mut i: usize = 0;
    while i < v.len()
        invariant
            i <= v@.len(),
            parts@.map_values(|p: Vec<char>| p@).push(cur@) == split_on(v@.take(i as int), c),
        decreases v@.len() - i,
    {
        proof {
            lemma_split_on_nonempty(v@.take(i as int), c);
        }
        assert(v@.take(i + 1).drop_last() =~= v@.take(i as int));
        let ghost before = parts@.map_values(|p: Vec<char>| p@);
        let ghost cur0 = cur@;
        if v[i] == c {
            let mut fresh: Vec<char> = Vec::new();
            std::mem::swap(&mut fresh, &mut cur);
            parts.push(fresh);
            assert(parts@.map_values(|p: Vec<char>| p@) =~= before.push(cur0));
            assert(parts@.map_values(|p: Vec<char>| p@).push(cur@) =~= before.push(cur0).push(
                Seq::empty(),
            ));
        } else {
            cur.push(v[i]);
            assert(parts@.map_values(|p: Vec<char>| p@).push(cur@) =~= before.push(cur0).update(
                before.len() as int,
                cur0.push(v@[i as int]),
            ));
        }
        i = i + 1;
    }
    assert(v@.take(v@.len() as int) =~= v@);
    let ghost before = parts@.map_values(|p: Vec<char>| p@);
    parts.push(cur);
    assert(parts@.map_values(|p: Vec<char>| p@) =~= before.push(cur@));
    parts
}

/// The number of words: maximal runs of characters that are not whitespace,
/// as `str::split_whitespace` yields them.
pub open spec fn word_count(s: Seq<char>) -> nat
    decreases s.len(),
{
    if s.len() == 0 {
        0
    } else {
        word_count(s.drop_last()) + if !is_ws(s.last()) && (s.len() == 1 || is_ws(
            s[s.len() - 2],
        )) {
            1nat
        } else {
            0nat
        }
    }
}

pub fn word_count_exec(v: &Vec<char>) -> (n: usize)
    ensures
        n == word_count(v@),
{
    let mut n: usize = 0;
    let mut i: usize = 0;
    while i < v.len()
        invariant
            i <= v@.len(),
            n == word_count(v@.take(i as int)),
            n <= i,
        decreases v@.len() - i,
    {
        assert(v@.take(i + 1).drop_last() =~= v@.take(i as int));
        if !is_whitespace(v[i]) && (i == 0 || is_whitespace(v[i - 1])) {
            n = n + 1;
        }
        i = i + 1;
    }
    assert(v@.take(v@.len() as int) =~= v@);
    n
}

/// What `str::to_lowercase` returns for a string.
pub uninterp spec fn lowercase(s: Seq<char>) -> Seq<char>;

/// `str::to_lowercase`: the string with each character replaced by its
/// Unicode lowercase mapping. The mapping is named, not stated.
#[verifier::external_body]
pub(crate) fn to_lowercase(s: &str) -> (r: String)
    ensures
        r@ == lowercase(s@),
{
    s.to_lowercase()
}

/// What `char::to_uppercase` yields for a character.
pub uninterp spec fn uppercase_char(c: char) -> Seq<char>;

/// `char::to_uppercase`, collected: the Unicode uppercase mapping of `c`,
/// which may be more than one character. The mapping is named, not stated.
#[verifier::external_body]
pub(crate) fn char_to_uppercase(c: char) -> (r: String)
    ensures
        r@ == uppercase_char(c),
{
    c.to_uppercase().collect::<String>()
}

/// `s` with each occurrence of `p` replaced by `r`, scanning from the left
/// (`str::replace`).
pub open spec fn replace_all(s: Seq<char>, p: Seq<char>, r: Seq<char>) -> Seq<char>
    decreases s.len(),
{
    if s.len() == 0 {
        Seq::empty()
    } else if p.len() > 0 && seq_starts_with(s, p) {
        r + replace_all(s.skip(p.len() as int), p, r)
    } else {
        seq![s[0]] + replace_all(s.drop_first(), p, r)
    }
}

pub fn replace(s: &str, p: &str, r: &str) -> (out: String)
    requires
        p@.len() > 0,
    ensures
        out@ == replace_all(s@, p@, r@),
{
    let v = chars_of(s);
    let pv = chars_of(p);
    let mut out = String::new();
    let mut i: usize = 0;
    assert(v@.skip(0) =~= v@);
    while i < v.len()
        invariant
            v@ == s@,
            pv@ == p@,
            pv@.len() > 0,
            i <= v@.len(),
            out@ + replace_all(v@.skip(i as int), p@, r@) == replace_all(s@, p@, r@),
        decreases v@.len() - i,
    {
        let ghost rest = v@.skip(i as int);
        let ghost out0 = out@;
        if occurs_at_exec(&v, &pv, i) {
            assert(rest.subrange(0, p@.len() as int) =~= v@.subrange(i as int, i + p@.len()));
            assert(rest.skip(p@.len() as int) =~= v@.skip(i + p@.len()));
            assert(replace_all(rest, p@, r@) == r@ + replace_all(v@.skip(i + p@.len()), p@, r@));
            append_str(&mut out, r);
            assert(out@ + replace_all(v@.skip(i + p@.len()), p@, r@) =~= out0 + replace_all(
                rest,
                p@,
                r@,
            ));
            i = i + pv.len();
        } else {
            assert(!seq_starts_with(rest, p@)) by {
                if p@.len() <= rest.len() {
                    assert(rest.subrange(0, p@.len() as int) =~= v@.subrange(i as int, i + p@.len()));
                }
            }
            assert(rest.drop_first() =~= v@.skip(i + 1));
            assert(replace_all(rest, p@, r@) == seq![v@[i as int]] + replace_all(
                v@.skip(i + 1),
                p@,
                r@,
            ));
            push_char(&mut out, v[i]);
            assert(out@ + replace_all(v@.skip(i + 1), p@, r@) =~= out0 + replace_all(rest, p@, r@));
            i = i + 1;
        }
    }
    assert(v@.skip(i as int) =~= Seq::<char>::empty());
    out
}

/// The value of a string of decimal digits.
pub open spec fn digits_value(s: Seq<char>) -> int
    decreases s.len(),
{
    if s.len() == 0 {
        0
    } else {
        digits_value(s.drop_last()) * 10 + (s.last() as int - 48)
    }
}

pub open spec fn all_digits(s: Seq<char>) -> bool {
    forall|i: int| 0 <= i < s.len() ==> is_digit(#[trigger] s[i])
}

/// What `str::parse::<i64>` accepts: an optional `+` or `-`, then one or
/// more ASCII digits, of a value that fits in an `i64`.
pub open spec fn parse_i64_spec(s: Seq<char>) -> Option<i64> {
    let neg = s.len() > 0 && s[0] == '-';
    let body = if s.len() > 0 && (s[0] == '-' || s[0] == '+') {
        s.drop_first()
    } else {
        s
    };
    let v = if neg {
        -digits_value(body)
    } else {
        digits_value(body)
    };
    if body.len() > 0 && all_digits(body) && i64::MIN <= v <= i64::MAX {
        Some(v as i64)
    } else {
        None
    }
}

proof fn lemma_digits_value_nonneg(s: Seq<char>)
    requires
        all_digits(s),
    ensures
        digits_value(s) >= 0,
    decreases s.len(),
{
    if s.len() > 0 {
        assert(all_digits(s.drop_last()));
        lemma_digits_value_nonneg(s.drop_last());
        assert(is_digit(s[s.len() - 1]));
    }
}

proof fn lemma_digits_value_grows(s: Seq<char>, k: int)
    requires
        all_digits(s),
        0 <= k <= s.len(),
    ensures
        digits_value(s.take(k)) <= digits_value(s),
    decreases s.len() - k,
{
    if k < s.len() {
        assert(s.take(k + 1).drop_last() =~= s.take(k));
        assert(all_digits(s.take(k + 1)));
        assert(is_digit(s[k]));
        lemma_digits_value_nonneg(s.take(k));
        lemma_digits_value_grows(s, k + 1);
    } else {
        assert(s.take(k) =~= s);
    }
}

/// `str::parse::<i64>`.
pub fn parse_i64(s: &str) -> (r: Option<i64>)
    ensures
        r == parse_i64_spec(s@),
{
    let v = chars_of(s);
    let neg = v.len() > 0 && v[0] == '-';
    let start: usize = if v.len() > 0 && (v[0] == '-' || v[0] == '+') {
        1
    } else {
        0
    };
    let ghost body = if v@.len() > 0 && (v@[0] == '-' || v@[0] == '+') {
        v@.drop_first()
    } else {
        v@
    };
    assert(body =~= v@.skip(start as int));
    if start == v.len() {
        assert(body.len() == 0);
        return None;
    }
    let mut acc: i128 = 0;
    let mut i: usize = start;
    while i < v.len()
        invariant
            v@ == s@,
            start <= i <= v@.len(),
            body == v@.skip(start as int),
            body == (if v@.len() > 0 && (v@[0] == '-' || v@[0] == '+') {
                v@.drop_first()
            } else {
                v@
            }),
            neg == (v@.len() > 0 && v@[0] == '-'),
            all_digits(body.take(i - start)),
            acc == digits_value(body.take(i - start)),
            0 <= acc <= 0x8000_0000_0000_0000,
        decreases v@.len() - i,
    {
        if !is_ascii_digit(v[i]) {
            assert(body[i - start] == v@[i as int]);
            assert(!all_digits(body));
            return None;
        }
        assert(body.take(i - start + 1).drop_last() =~= body.take(i - start));
        assert(body[i - start] == v@[i as int]);
        let d = (v[i] as u32 - 48) as i128;
        acc = acc * 10 + d;
        assert(acc == digits_value(body.take(i - start + 1)));
        assert(all_digits(body.take(i - start + 1))) by {
            assert forall|j: int| 0 <= j < i - start + 1 implies is_digit(
                #[trigger] body.take(i - start + 1)[j],
            ) by {
                if j < i - start {
                    assert(body.take(i - start + 1)[j] == body.take(i - start)[j]);
                }
            }
        }
        if acc > 0x8000_0000_0000_0000 {
            proof {
                if all_digits(body) {
                    lemma_digits_value_grows(body, i - start + 1);
                }
            }
            return None;
        }
        i = i + 1;
    }
    assert(body.take(i - start) =~= body);
    if neg {
        Some((0 - acc) as i64)
    } else if acc > 0x7FFF_FFFF_FFFF_FFFF {
        None
    } else {
        Some(acc as i64)
    }
}


/// The number of bytes that `c` takes in UTF-8.
pub open spec fn char_width(c: char) -> nat {
    if (c as u32) < 0x80 {
        1
    } else if (c as u32) < 0x800 {
        2
    } else if (c as u32) < 0x10000 {
        3
    } else {
        4
    }
}

/// The number of bytes that `s` takes in UTF-8 (`str::len`).
pub open spec fn utf8_len(s: Seq<char>) -> nat
    decreases s.len(),
{
    if s.len() == 0 {
        0
    } else {
        utf8_len(s.drop_last()) + char_width(s.last())
    }
}

pub fn char_width_exec(c: char) -> (n: usize)
    ensures
        n == char_width(c),
{
    let u = c as u32;
    if u < 0x80 {
        1
    } else if u < 0x800 {
        2
    } else if u < 0x10000 {
        3
    } else {
        4
    }
}

/// The UTF-8 length of the first `k` characters of `s`: at most four bytes
/// per character.
pub proof fn lemma_utf8_len_bound(s: Seq<char>)
    ensures
        s.len() <= utf8_len(s) <= 4 * s.len(),
    decreases s.len(),
{
    if s.len() > 0 {
        lemma_utf8_len_bound(s.drop_last());
    }
}

/// The UTF-8 length of `v`, in bytes.
pub fn utf8_len_exec(v: &Vec<char>) -> (n: u128)
    ensures
        n == utf8_len(v@),
{
    let mut n: u128 = 0;
    let mut i: usize = 0;
    while i < v.len()
        invariant
            i <= v@.len(),
            n == utf8_len(v@.take(i as int)),
            n <= 4 * i,
        decreases v@.len() - i,
    {
        assert(v@.take(i + 1).drop_last() =~= v@.take(i as int));
        n = n + char_width_exec(v[i]) as u128;
        i = i + 1;
    }
    assert(v@.take(i as int) =~= v@);
    n
}

/// The number of characters whose UTF-8 encoding fills exactly the first
/// `bytes` bytes of `v`, if a character boundary stands there.
pub fn char_count_at_byte(v: &Vec<char>, bytes: u128) -> (r: Option<usize>)
    ensures
        match r {
            Some(k) => k <= v@.len() && utf8_len(v@.take(k as int)) == bytes,
            None => forall|k: int| 0 <= k <= v@.len() ==> utf8_len(#[trigger] v@.take(k)) != bytes,
        },
{
    let mut n: u128 = 0;
    let mut i: usize = 0;
    while i < v.len()
        invariant
            i <= v@.len(),
            n == utf8_len(v@.take(i as int)),
            n <= 4 * i,
            n <= bytes,
            forall|k: int| 0 <= k < i ==> utf8_len(#[trigger] v@.take(k)) < bytes,
        decreases v@.len() - i,
    {
        if n == bytes {
            return Some(i);
        }
        assert(v@.take(i + 1).drop_last() =~= v@.take(i as int));
        let w = char_width_exec(v[i]) as u128;
        if n + w > bytes {
            proof {
                assert forall|k: int| 0 <= k <= v@.len() implies utf8_len(
                    #[trigger] v@.take(k),
                ) != bytes by {
                    if k > i {
                        lemma_utf8_len_monotone(v@, i + 1, k);
                    }
                }
            }
            return None;
        }
        n = n + w;
        i = i + 1;
    }
    if n == bytes {
        return Some(i);
    }
    proof {
        assert(v@.take(i as int) =~= v@);
    }
    None
}

/// A longer prefix takes at least as many bytes.
pub proof fn lemma_utf8_len_monotone(s: Seq<char>, j: int, k: int)
    requires
        0 <= j <= k <= s.len(),
    ensures
        utf8_len(s.take(j)) <= utf8_len(s.take(k)),
    decreases k - j,
{
    if j < k {
        assert(s.take(k).drop_last() =~= s.take(k - 1));
        lemma_utf8_len_monotone(s, j, k - 1);
    }
}

/// A longer prefix takes more bytes.
pub proof fn lemma_utf8_len_strict(s: Seq<char>, j: int, k: int)
    requires
        0 <= j < k <= s.len(),
    ensures
        utf8_len(s.take(j)) < utf8_len(s.take(k)),
    decreases k - j,
{
    assert(s.take(k).drop_last() =~= s.take(k - 1));
    if j < k - 1 {
        lemma_utf8_len_strict(s, j, k - 1);
    }
}

/// A character boundary stands after the first `n` bytes of `s`.
pub open spec fn is_char_boundary(s: Seq<char>, n: nat) -> bool {
    exists|k: int| 0 <= k <= s.len() && utf8_len(#[trigger] s.take(k)) == n
}

/// The characters that fill the first `n` bytes of `s` (`&s[..n]`), where a
/// character boundary stands there.
pub open spec fn byte_prefix(s: Seq<char>, n: nat) -> Seq<char> {
    s.take(choose|k: int| 0 <= k <= s.len() && utf8_len(#[trigger] s.take(k)) == n)
}

/// `&s[..n]`, as a new string.
pub fn prefix_by_bytes(s: &str, n: usize) -> (r: String)
    requires
        is_char_boundary(s@, n as nat),
    ensures
        r@ == byte_prefix(s@, n as nat),
{
    let v = chars_of(s);
    let k = char_count_at_byte(&v, n as u128).unwrap();
    proof {
        let c = choose|c: int| 0 <= c <= s@.len() && utf8_len(#[trigger] s@.take(c)) == n;
        if c < k {
            lemma_utf8_len_strict(s@, c, k as int);
        } else if k < c {
            lemma_utf8_len_strict(s@, k as int, c);
        }
    }
    string_from_range(&v, 0, k)
}

/// A decimal digit's character is `'0'` to `'9'`, and tells the digit.
pub proof fn lemma_digit_char(d: nat)
    requires
        d < 10,
    ensures
        is_digit(digit_char(d)),
        digit_char(d) as u32 == d + 48,
{
    let b = (d + 48) as u8;
    assert(b as int == d + 48);
    assert((b as char) as u32 == b as u32);
}

/// A decimal numeral is one or more digits, and at least two from 10 on.
pub proof fn lemma_decimal_digits(n: nat)
    ensures
        decimal(n).len() >= 1,
        n >= 10 ==> decimal(n).len() >= 2,
        forall|i: int| 0 <= i < decimal(n).len() ==> is_digit(#[trigger] decimal(n)[i]),
    decreases n,
{
    if n < 10 {
        lemma_digit_char(n);
    } else {
        lemma_decimal_digits(n / 10);
        lemma_digit_char(n % 10);
        let s = decimal(n / 10);
        assert forall|i: int| 0 <= i < decimal(n).len() implies is_digit(#[trigger] decimal(n)[i]) by {
            if i < s.len() {
                assert(decimal(n)[i] == s[i]);
            }
        }
    }
}

/// Different numbers have different numerals.
pub proof fn lemma_decimal_injective(a: nat, b: nat)
    requires
        decimal(a) == decimal(b),
    ensures
        a == b,
    decreases a,
{
    lemma_decimal_digits(a);
    lemma_decimal_digits(b);
    if a < 10 && b < 10 {
        lemma_digit_char(a);
        lemma_digit_char(b);
        assert(decimal(a)[0] == digit_char(a));
        assert(decimal(b)[0] == digit_char(b));
        assert(decimal(a)[0] == decimal(b)[0]);
        assert(digit_char(a) as u32 == digit_char(b) as u32);
    } else if a >= 10 && b >= 10 {
        let sa = decimal(a);
        let sb = decimal(b);
        assert(sa.last() == sb.last());
        lemma_digit_char(a % 10);
        lemma_digit_char(b % 10);
        assert(sa.drop_last() =~= decimal(a / 10));
        assert(sb.drop_last() =~= decimal(b / 10));
        lemma_decimal_injective(a / 10, b / 10);
        assert(sa.last() == digit_char(a % 10));
        assert(sb.last() == digit_char(b % 10));
        assert(a % 10 == b % 10);
        assert(a == 10 * (a / 10) + a % 10) by (nonlinear_arith);
        assert(b == 10 * (b / 10) + b % 10) by (nonlinear_arith);
        assert(a == b);
    } else {
        assert(decimal(a).len() != decimal(b).len());
    }
}

} // verus!
