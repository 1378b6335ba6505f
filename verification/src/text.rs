//! Verified text utilities: blank detection, substring search, prefix tests,
//! space-joining, case-insensitive comparison and decimal rendering.

use vstd::prelude::*;
use vstd::string::StrSliceExecFns;
use vstd::string::StringExecFns;

verus! {

/// ASCII whitespace, the set recognised when deciding that a query is blank.
pub open spec fn is_space_char(c: char) -> bool {
    c == ' ' || c == '\t' || c == '\n' || c == '\r' || c == '\u{b}' || c == '\u{c}'
}

/// A string is blank when every character is whitespace.
pub open spec fn is_blank_seq(s: Seq<char>) -> bool {
    forall|i: int| 0 <= i < s.len() ==> is_space_char(#[trigger] s[i])
}

/// Decides whether `s` consists only of whitespace (so a query made of it is
/// treated as empty, switching the caller to browsing mode).
pub fn is_blank(s: &str) -> (r: bool)
    ensures
        r == is_blank_seq(s@),
{
    let n: usize = s.unicode_len();
    let mut i: usize = 0;
    while i < n
        invariant
            0 <= i <= n,
            n == s@.len(),
            forall|j: int| 0 <= j < i ==> is_space_char(#[trigger] s@[j]),
        decreases n - i,
    {
        let c = s.get_char(i);
        if !(c == ' ' || c == '\t' || c == '\n' || c == '\r' || c == '\u{b}' || c == '\u{c}') {
            return false;
        }
        i = i + 1;
    }
    true
}

/// The needle `n` occurs in `h` starting at position `i`.
pub open spec fn occurs_at(h: Seq<char>, n: Seq<char>, i: int) -> bool {
    0 <= i && i + n.len() <= h.len() && h.subrange(i, i + n.len() as int) == n
}

/// The needle occurs somewhere in the haystack.
pub open spec fn contains_seq(h: Seq<char>, n: Seq<char>) -> bool {
    exists|i: int| occurs_at(h, n, i)
}

/// Whether `h[i..]` starts with `n`; helper for the substring scans.
pub(crate) fn matches_at(h: &str, hlen: usize, n: &str, nlen: usize, i: usize) -> (r: bool)
    requires
        hlen == h@.len(),
        nlen == n@.len(),
        i + nlen <= hlen,
    ensures
        r == occurs_at(h@, n@, i as int),
{
    let mut j: usize = 0;
    while j < nlen
        invariant
            0 <= j <= nlen,
            hlen == h@.len(),
            nlen == n@.len(),
            i + nlen <= hlen,
            forall|k: int| 0 <= k < j ==> h@[i + k] == #[trigger] n@[k],
        decreases nlen - j,
    {
        if s_char(h, i + j) != s_char(n, j) {
            assert(h@.subrange(i as int, i + nlen as int)[j as int] != n@[j as int]);
            return false;
        }
        j = j + 1;
    }
    assert(h@.subrange(i as int, i + nlen as int) =~= n@);
    true
}

/// Single character access; wraps the O(n) unicode walk from vstd.
fn s_char(s: &str, i: usize) -> (c: char)
    requires
        i < s@.len(),
    ensures
        c == s@[i as int],
{
    s.get_char(i)
}

/// Substring search: does `n` occur anywhere in `h`?
pub fn contains_str(h: &str, n: &str) -> (r: bool)
    ensures
        r == contains_seq(h@, n@),
{
    let hlen: usize = h.unicode_len();
    let nlen: usize = n.unicode_len();
    if nlen > hlen {
        assert(forall|i: int| !occurs_at(h@, n@, i));
        return false;
    }
    if nlen == 0 {
        assert(h@.subrange(0, 0) =~= n@);
        assert(occurs_at(h@, n@, 0));
        return true;
    }
    let last: usize = hlen - nlen;
    let mut i: usize = 0;
    loop
        invariant
            hlen == h@.len(),
            nlen == n@.len(),
            1 <= nlen <= hlen,
            last == hlen - nlen,
            0 <= i <= last + 1,
            i <= hlen,
            forall|k: int| 0 <= k < i ==> !occurs_at(h@, n@, k),
        decreases hlen - i,
    {
        if i > last {
            assert(forall|k: int| occurs_at(h@, n@, k) ==> 0 <= k && k + n@.len() <= h@.len());
            return false;
        }
        if matches_at(h, hlen, n, nlen, i) {
            return true;
        }
        i = i + 1;
    }
}

/// Exact string equality.
pub fn str_eq(a: &str, b: &str) -> (r: bool)
    ensures
        r == (a@ == b@),
{
    let alen: usize = a.unicode_len();
    let blen: usize = b.unicode_len();
    if alen != blen {
        return false;
    }
    let r = matches_at(a, alen, b, blen, 0);
    proof {
        assert(a@.subrange(0, alen as int) =~= a@);
    }
    r
}

/// Prefix test: `h` starts with `n`.
pub fn starts_with_str(h: &str, n: &str) -> (r: bool)
    ensures
        r == occurs_at(h@, n@, 0),
{
    let hlen: usize = h.unicode_len();
    let nlen: usize = n.unicode_len();
    if nlen > hlen {
        return false;
    }
    matches_at(h, hlen, n, nlen, 0)
}

/// The flattened, space-joined form of a list of strings, as used for the
/// authors field of an indexed document.
pub open spec fn join_spaces(parts: Seq<Seq<char>>) -> Seq<char>
    decreases parts.len(),
{
    if parts.len() == 0 {
        Seq::empty()
    } else if parts.len() == 1 {
        parts[0]
    } else {
        parts[0] + seq![' '] + join_spaces(parts.drop_first())
    }
}

proof fn lemma_join_push(parts: Seq<Seq<char>>, x: Seq<char>)
    ensures
        join_spaces(parts.push(x)) == if parts.len() == 0 {
            x
        } else {
            join_spaces(parts) + seq![' '] + x
        },
    decreases parts.len(),
{
    if parts.len() == 0 {
        assert(parts.push(x).len() == 1);
        assert(parts.push(x)[0] == x);
    } else if parts.len() == 1 {
        assert(parts.push(x).drop_first() =~= seq![x]);
        assert(parts.push(x)[0] == parts[0]);
        assert(join_spaces(seq![x]) == x);
        assert(join_spaces(parts.push(x)) =~= parts[0] + seq![' '] + x);
    } else {
        assert(parts.push(x).drop_first() =~= parts.drop_first().push(x));
        lemma_join_push(parts.drop_first(), x);
        assert(parts.push(x)[0] == parts[0]);
        assert(join_spaces(parts) + seq![' '] + x =~= parts[0] + seq![' '] + (join_spaces(
            parts.drop_first(),
        ) + seq![' '] + x));
    }
}

/// Joins the strings with single spaces, the flattening applied to author
/// lists before indexing.
pub fn join_space(parts: &Vec<String>) -> (r: String)
    ensures
        r@ == join_spaces(parts@.map_values(|p: String| p@)),
{
    let ghost views = parts@.map_values(|p: String| p@);
    let mut out = String::new();
    let mut i: usize = 0;
    while i < parts.len()
        invariant
            0 <= i <= parts.len(),
            views == parts@.map_values(|p: String| p@),
            out@ == join_spaces(views.take(i as int)),
        decreases parts@.len() - i,
    {
        if i > 0 {
            out.append(" ");
            proof {
                reveal_strlit(" ");
            }
        }
        out.append(parts[i].as_str());
        proof {
            assert(views.take(i + 1) =~= views.take(i as int).push(views[i as int]));
            lemma_join_push(views.take(i as int), views[i as int]);
        }
        i = i + 1;
    }
    proof {
        assert(views.take(parts@.len() as int) =~= views);
    }
    out
}

/// Lower-cased code point for ASCII letters, identity elsewhere.
pub open spec fn lower_code(c: char) -> int {
    if 65 <= c as int <= 90 {
        c as int + 32
    } else {
        c as int
    }
}

/// Case-insensitive equality over ASCII letters.
pub open spec fn ascii_eq_seq(a: Seq<char>, b: Seq<char>) -> bool {
    a.len() == b.len() && forall|i: int|
        0 <= i < a.len() ==> lower_code(#[trigger] a[i]) == lower_code(b[i])
}

/// Compares two strings ignoring ASCII case.
pub fn eq_ignore_ascii_case_str(a: &str, b: &str) -> (r: bool)
    ensures
        r == ascii_eq_seq(a@, b@),
{
    let alen: usize = a.unicode_len();
    let blen: usize = b.unicode_len();
    if alen != blen {
        return false;
    }
    let mut i: usize = 0;
    while i < alen
        invariant
            0 <= i <= alen,
            alen == a@.len(),
            alen == b@.len(),
            forall|j: int| 0 <= j < i ==> lower_code(#[trigger] a@[j]) == lower_code(b@[j]),
        decreases alen - i,
    {
        let ca = s_char(a, i) as u32;
        let cb = s_char(b, i) as u32;
        let la: u32 = if 65 <= ca && ca <= 90 {
            ca + 32
        } else {
            ca
        };
        let lb: u32 = if 65 <= cb && cb <= 90 {
            cb + 32
        } else {
            cb
        };
        if la != lb {
            return false;
        }
        i = i + 1;
    }
    true
}

/// The decimal digit character for `n < 10`.
pub open spec fn dec_digit(n: int) -> char {
    if n == 0 {
        '0'
    } else if n == 1 {
        '1'
    } else if n == 2 {
        '2'
    } else if n == 3 {
        '3'
    } else if n == 4 {
        '4'
    } else if n == 5 {
        '5'
    } else if n == 6 {
        '6'
    } else if n == 7 {
        '7'
    } else if n == 8 {
        '8'
    } else {
        '9'
    }
}

/// Decimal representation of a natural number, most significant digit first.
pub open spec fn dec_rep(n: int) -> Seq<char>
    decreases n,
{
    if n < 10 {
        seq![dec_digit(n)]
    } else {
        dec_rep(n / 10).push(dec_digit(n % 10))
    }
}

/// One decimal digit as a string slice.
fn digit_str(d: u64) -> (r: &'static str)
    requires
        d < 10,
    ensures
        r@ == seq![dec_digit(d as int)],
{
    proof {
        reveal_strlit("0");
        reveal_strlit("1");
        reveal_strlit("2");
        reveal_strlit("3");
        reveal_strlit("4");
        reveal_strlit("5");
        reveal_strlit("6");
        reveal_strlit("7");
        reveal_strlit("8");
        reveal_strlit("9");
    }
    match d {
        0 => "0",
        1 => "1",
        2 => "2",
        3 => "3",
        4 => "4",
        5 => "5",
        6 => "6",
        7 => "7",
        8 => "8",
        _ => "9",
    }
}

/// Renders `n` in decimal.
pub fn u64_to_string(n: u64) -> (r: String)
    ensures
        r@ == dec_rep(n as int),
{
    let mut digits: Vec<u64> = Vec::new();
    let mut m: u64 = n;
    while m >= 10
        invariant
            forall|j: int| 0 <= j < digits@.len() ==> #[trigger] digits@[j] < 10,
            dec_rep(n as int) == dec_rep(m as int) + spec_digits_rev(digits@),
        decreases m,
    {
        proof {
            assert(digits@.push(m % 10).drop_last() =~= digits@);
            assert(digits@.push(m % 10).last() == m % 10);
            assert(spec_digits_rev(digits@.push(m % 10)) =~= seq![
                dec_digit((m % 10) as int),
            ] + spec_digits_rev(digits@));
            assert(dec_rep(m as int) == dec_rep(m as int / 10).push(dec_digit(m as int % 10)));
            assert(dec_rep(m as int / 10) + (seq![dec_digit((m % 10) as int)] + spec_digits_rev(
                digits@,
            )) =~= dec_rep(m as int) + spec_digits_rev(digits@));
        }
        digits.push(m % 10);
        m = m / 10;
    }
    let mut out = String::new();
    out.append(digit_str(m));
    assert(out@ =~= dec_rep(m as int));
    let mut i: usize = digits.len();
    while i > 0
        invariant
            0 <= i <= digits@.len(),
            forall|j: int| 0 <= j < digits@.len() ==> #[trigger] digits@[j] < 10,
            dec_rep(n as int) == dec_rep(m as int) + spec_digits_rev(digits@),
            out@ == dec_rep(m as int) + spec_digits_rev(digits@).take(
                digits@.len() - i as int,
            ),
        decreases i,
    {
        i = i - 1;
        let d = digits[i];
        out.append(digit_str(d));
        proof {
            lemma_digits_rev_index(digits@, i as int);
            assert(spec_digits_rev(digits@).take(digits@.len() - i as int) =~= spec_digits_rev(
                digits@,
            ).take(digits@.len() - (i + 1 as int)).push(dec_digit(digits@[i as int] as int)));
        }
    }
    proof {
        lemma_digits_rev_len(digits@);
        assert(spec_digits_rev(digits@).take(digits@.len() as int) =~= spec_digits_rev(digits@));
    }
    out
}

/// The digit sequence of `s` read from the last element to the first.
pub open spec fn spec_digits_rev(s: Seq<u64>) -> Seq<char>
    decreases s.len(),
{
    if s.len() == 0 {
        Seq::empty()
    } else {
        seq![dec_digit(s.last() as int)] + spec_digits_rev(s.drop_last())
    }
}

proof fn lemma_digits_rev_index(s: Seq<u64>, i: int)
    requires
        0 <= i < s.len(),
    ensures
        spec_digits_rev(s)[s.len() - 1 - i] == dec_digit(s[i] as int),
        spec_digits_rev(s).len() == s.len(),
    decreases s.len(),
{
    lemma_digits_rev_len(s);
    if i == s.len() - 1 {
    } else {
        lemma_digits_rev_index(s.drop_last(), i);
        lemma_digits_rev_len(s.drop_last());
    }
}

proof fn lemma_digits_rev_len(s: Seq<u64>)
    ensures
        spec_digits_rev(s).len() == s.len(),
    decreases s.len(),
{
    if s.len() > 0 {
        lemma_digits_rev_len(s.drop_last());
    }
}

} // verus!
