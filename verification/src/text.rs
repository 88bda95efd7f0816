//! Character-level text helpers shared by the parsers: conversion between
//! `&str` and `Vec<char>`, Unicode whitespace, trimming, line splitting,
//! and unsigned-integer parsing.

use vstd::prelude::*;

verus! {

/// Relies on `str::chars`: iterating a string yields exactly the
/// characters of its view.
#[verifier::external_body]
pub fn chars_of(s: &str) -> (r: Vec<char>)
    ensures
        r@ == s@,
{
    s.chars().collect()
}

/// Relies on `String`'s `FromIterator<char>`: collecting characters
/// builds the string with exactly those characters.
#[verifier::external_body]
pub fn string_from_chars(v: &Vec<char>) -> (r: String)
    ensures
        r@ == v@,
{
    v.iter().collect()
}

/// The Unicode `White_Space` characters: what `char::is_whitespace`
/// holds of (and what `str::trim` and the `\s` class strip).
pub open spec fn is_ws(c: char) -> bool {
    c == ' ' || c == '\t' || c == '\n' || c == '\u{B}' || c == '\u{C}' || c == '\r' || c == '\u{85}'
        || c == '\u{A0}' || c == '\u{1680}' || c == '\u{2000}' || c == '\u{2001}' || c == '\u{2002}'
        || c == '\u{2003}' || c == '\u{2004}' || c == '\u{2005}' || c == '\u{2006}' || c == '\u{2007}'
        || c == '\u{2008}' || c == '\u{2009}' || c == '\u{200A}' || c == '\u{2028}' || c == '\u{2029}'
        || c == '\u{202F}' || c == '\u{205F}' || c == '\u{3000}'
}

/// Executable check for [`is_ws`].
pub fn is_ws_char(c: char) -> (r: bool)
    ensures
        r == is_ws(c),
{
    c == ' ' || c == '\t' || c == '\n' || c == '\u{B}' || c == '\u{C}' || c == '\r' || c == '\u{85}'
        || c == '\u{A0}' || c == '\u{1680}' || c == '\u{2000}' || c == '\u{2001}' || c == '\u{2002}'
        || c == '\u{2003}' || c == '\u{2004}' || c == '\u{2005}' || c == '\u{2006}' || c == '\u{2007}'
        || c == '\u{2008}' || c == '\u{2009}' || c == '\u{200A}' || c == '\u{2028}' || c == '\u{2029}'
        || c == '\u{202F}' || c == '\u{205F}' || c == '\u{3000}'
}

/// First index at or after `i` whose character fails `ws`; `s.len()` if
/// none does.  With `ws = true` this skips whitespace, with `ws = false`
/// it skips non-whitespace.
pub open spec fn skip_while_ws(s: Seq<char>, i: int, ws: bool) -> int
    decreases s.len() - i,
{
    if i < 0 {
        i
    } else if i >= s.len() {
        s.len() as int
    } else if is_ws(s[i]) == ws {
        skip_while_ws(s, i + 1, ws)
    } else {
        i
    }
}

pub proof fn lemma_skip_while_ws_bounds(s: Seq<char>, i: int, ws: bool)
    requires
        0 <= i <= s.len(),
    ensures
        i <= skip_while_ws(s, i, ws) <= s.len(),
        forall|k: int| i <= k < skip_while_ws(s, i, ws) ==> is_ws(s[k]) == ws,
        skip_while_ws(s, i, ws) < s.len() ==> is_ws(s[skip_while_ws(s, i, ws)]) != ws,
    decreases s.len() - i,
{
    if i < s.len() && is_ws(s[i]) == ws {
        lemma_skip_while_ws_bounds(s, i + 1, ws);
    }
}

/// Index of the first non-whitespace character (or `s.len()`).
pub open spec fn ws_start(s: Seq<char>) -> int {
    skip_while_ws(s, 0, true)
}

/// One past the index of the last non-whitespace character (or 0).
pub open spec fn ws_end(s: Seq<char>) -> int
    decreases s.len(),
{
    if s.len() == 0 {
        0
    } else if is_ws(s[s.len() - 1]) {
        ws_end(s.drop_last())
    } else {
        s.len() as int
    }
}

proof fn lemma_ws_end_bounds(s: Seq<char>)
    ensures
        0 <= ws_end(s) <= s.len(),
        forall|k: int| ws_end(s) <= k < s.len() ==> is_ws(s[k]),
        ws_end(s) > 0 ==> !is_ws(s[ws_end(s) - 1]),
    decreases s.len(),
{
    if s.len() > 0 && is_ws(s[s.len() - 1]) {
        lemma_ws_end_bounds(s.drop_last());
        assert forall|k: int| ws_end(s) <= k < s.len() implies is_ws(s[k]) by {
            if k < s.len() - 1 {
                assert(is_ws(s.drop_last()[k]));
                assert(s.drop_last()[k] == s[k]);
            }
        }
    }
}

/// A run of whitespace characterizes `skip_while_ws` skipping it.
pub proof fn lemma_skip_ws_eq(s: Seq<char>, i: int, j: int)
    requires
        0 <= i <= j <= s.len(),
        forall|k: int| i <= k < j ==> is_ws(s[k]),
        j < s.len() ==> !is_ws(s[j]),
    ensures
        skip_while_ws(s, i, true) == j,
    decreases j - i,
{
    if i < j {
        lemma_skip_ws_eq(s, i + 1, j);
    }
}

/// The spec value of an optional string.
pub open spec fn opt_string_view(o: Option<String>) -> Option<Seq<char>> {
    match o {
        Some(s) => Some(s@),
        None => None,
    }
}

/// Copy the characters of the half-open range `[a, b)`.
pub fn copy_range(s: &Vec<char>, a: usize, b: usize) -> (r: Vec<char>)
    requires
        a <= b <= s@.len(),
    ensures
        r@ == s@.subrange(a as int, b as int),
{
    let mut r: Vec<char> = Vec::new();
    let mut i: usize = a;
    while i < b
        invariant
            a <= i <= b <= s@.len(),
            r@ == s@.subrange(a as int, i as int),
        decreases b - i,
    {
        r.push(s[i]);
        proof {
            assert(s@.subrange(a as int, i + 1 as int) =~= s@.subrange(a as int, i as int).push(
                s@[i as int],
            ));
        }
        i = i + 1;
    }
    r
}

/// First index at or after `i` holding `'\n'`; `s.len()` if none.
pub open spec fn scan_nl(s: Seq<char>, i: int) -> int
    decreases s.len() - i,
{
    if i < 0 {
        0
    } else if i >= s.len() {
        s.len() as int
    } else if s[i] == '\n' {
        i
    } else {
        scan_nl(s, i + 1)
    }
}

pub proof fn lemma_scan_nl_bounds(s: Seq<char>, i: int)
    requires
        0 <= i <= s.len(),
    ensures
        i <= scan_nl(s, i) <= s.len(),
    decreases s.len() - i,
{
    if i < s.len() && s[i] != '\n' {
        lemma_scan_nl_bounds(s, i + 1);
    }
}

pub proof fn lemma_scan_nl_eq(s: Seq<char>, i: int, j: int)
    requires
        0 <= i <= j <= s.len(),
        forall|k: int| i <= k < j ==> s[k] != '\n',
        j < s.len() ==> s[j] == '\n',
    ensures
        scan_nl(s, i) == j,
    decreases j - i,
{
    if i < j {
        lemma_scan_nl_eq(s, i + 1, j);
    }
}

/// A line with one trailing carriage return stripped.
pub open spec fn strip_cr(l: Seq<char>) -> Seq<char> {
    if l.len() > 0 && l.last() == '\r' {
        l.drop_last()
    } else {
        l
    }
}

/// What `str::lines` yields: segments split at `'\n'`, each stripped of
/// one trailing `'\r'`, without a final empty segment after a trailing
/// newline.
pub open spec fn spec_lines(s: Seq<char>) -> Seq<Seq<char>>
    decreases s.len(),
    via spec_lines_dec
{
    if s.len() == 0 {
        seq![]
    } else {
        let e = scan_nl(s, 0);
        if e >= s.len() {
            seq![strip_cr(s)]
        } else {
            seq![strip_cr(s.subrange(0, e))] + spec_lines(s.skip(e + 1))
        }
    }
}

#[via_fn]
proof fn spec_lines_dec(s: Seq<char>) {
    if s.len() > 0 {
        lemma_scan_nl_bounds(s, 0);
    }
}

/// The spec value of a vector of character vectors.
pub open spec fn char_lines_view(v: Seq<Vec<char>>) -> Seq<Seq<char>> {
    v.map_values(|l: Vec<char>| l@)
}

/// Split a character vector into its lines, as `str::lines` would.
pub fn lines_of(cs: &Vec<char>) -> (r: Vec<Vec<char>>)
    ensures
        char_lines_view(r@) == spec_lines(cs@),
{
    let ghost s = cs@;
    let n = cs.len();
    let mut out: Vec<Vec<char>> = Vec::new();
    let mut pos: usize = 0;
    proof {
        assert(s.skip(0) =~= s);
        assert(char_lines_view(out@) =~= Seq::<Seq<char>>::empty());
    }
    while pos < n
        invariant
            0 <= pos <= n,
            n == s.len(),
            cs@ == s,
            spec_lines(s) =~= char_lines_view(out@) + spec_lines(s.skip(pos as int)),
        decreases n - pos,
    {
        let mut e = pos;
        while e < n && cs[e] != '\n'
            invariant
                pos <= e <= n,
                n == s.len(),
                cs@ == s,
                forall|k: int| pos <= k < e ==> s[k] != '\n',
            decreases n - e,
        {
            e = e + 1;
        }
        let stripped_end = if e > pos && cs[e - 1] == '\r' {
            e - 1
        } else {
            e
        };
        let line = copy_range(cs, pos, stripped_end);
        proof {
            let suf = s.skip(pos as int);
            lemma_scan_nl_eq(suf, 0, e - pos as int);
            assert(forall|k: int|
                0 <= k < e - pos as int ==> suf[k] == s[k + pos as int] && suf[k] != '\n');
            assert(suf.subrange(0, e - pos as int) =~= s.subrange(pos as int, e as int));
            assert(suf =~= s.subrange(pos as int, n as int));
            if e < n {
                assert(strip_cr(suf.subrange(0, e - pos as int)) =~= s.subrange(
                    pos as int,
                    stripped_end as int,
                ));
                assert(suf.skip(e - pos + 1 as int) =~= s.skip(e + 1 as int));
            } else {
                assert(strip_cr(suf) =~= s.subrange(pos as int, stripped_end as int));
            }
            assert(line@ == s.subrange(pos as int, stripped_end as int));
            assert(char_lines_view(out@.push(line)) =~= char_lines_view(out@) + seq![line@]);
        }
        out.push(line);
        if e == n {
            pos = e;
            proof {
                assert(s.skip(pos as int) =~= Seq::<char>::empty());
            }
        } else {
            pos = e + 1;
        }
    }
    proof {
        assert(s.skip(pos as int) =~= Seq::<char>::empty());
        assert(spec_lines(Seq::<char>::empty()) =~= Seq::<Seq<char>>::empty());
    }
    out
}

/// Whether two character vectors hold the same characters.
pub fn vec_char_eq(a: &Vec<char>, b: &Vec<char>) -> (r: bool)
    ensures
        r == (a@ == b@),
{
    if a.len() != b.len() {
        proof {
            assert(a@ != b@);
        }
        return false;
    }
    let mut i: usize = 0;
    while i < a.len()
        invariant
            0 <= i <= a@.len(),
            a@.len() == b@.len(),
            forall|k: int| 0 <= k < i ==> a@[k] == b@[k],
        decreases a@.len() - i,
    {
        if a[i] != b[i] {
            proof {
                assert(a@[i as int] != b@[i as int]);
            }
            return false;
        }
        i = i + 1;
    }
    proof {
        assert(a@ =~= b@);
    }
    true
}

/// Whether two strings hold the same characters.
pub fn str_eq(a: &str, b: &str) -> (r: bool)
    ensures
        r == (a@ == b@),
{
    let av = chars_of(a);
    let bv = chars_of(b);
    vec_char_eq(&av, &bv)
}

/// An ASCII decimal digit.
pub open spec fn is_digit(c: char) -> bool {
    48 <= c as u32 && c as u32 <= 57
}

pub open spec fn all_digits(s: Seq<char>) -> bool {
    forall|k: int| 0 <= k < s.len() ==> is_digit(s[k])
}

/// The value of a digit string, most significant first.
pub open spec fn digits_val(s: Seq<char>) -> int
    decreases s.len(),
{
    if s.len() == 0 {
        0
    } else {
        digits_val(s.drop_last()) * 10 + (s.last() as u32 - 48)
    }
}

pub proof fn lemma_digits_val_nonneg(s: Seq<char>)
    requires
        all_digits(s),
    ensures
        digits_val(s) >= 0,
    decreases s.len(),
{
    if s.len() > 0 {
        assert(all_digits(s.drop_last()));
        lemma_digits_val_nonneg(s.drop_last());
    }
}

/// Appending digits never lowers the value.
pub proof fn lemma_digits_val_prefix(s: Seq<char>, i: int)
    requires
        all_digits(s),
        0 <= i <= s.len(),
    ensures
        digits_val(s) >= digits_val(s.take(i)),
    decreases s.len() - i,
{
    if i < s.len() {
        lemma_digits_val_prefix(s, i + 1);
        assert(s.take(i + 1).drop_last() =~= s.take(i));
        assert(all_digits(s.take(i)));
        lemma_digits_val_nonneg(s.take(i));
        assert(digits_val(s.take(i + 1)) == digits_val(s.take(i)) * 10 + (s[i] as u32 - 48));
    } else {
        assert(s.take(i) =~= s);
    }
}

/// What `u64::from_str` accepts: an optional leading `+`, then one or
/// more ASCII digits whose value fits in a `u64`.
pub open spec fn spec_parse_u64(s: Seq<char>) -> Option<u64> {
    let digits = if s.len() > 0 && s[0] == '+' {
        s.skip(1)
    } else {
        s
    };
    if digits.len() == 0 || !all_digits(digits) {
        None
    } else if digits_val(digits) > u64::MAX {
        None
    } else {
        Some(digits_val(digits) as u64)
    }
}

/// Parse an unsigned integer as `u64::from_str` would.
pub fn parse_u64(v: &Vec<char>) -> (r: Option<u64>)
    ensures
        r == spec_parse_u64(v@),
{
    let n = v.len();
    let start: usize = if n > 0 && v[0] == '+' {
        1
    } else {
        0
    };
    let ghost digits = if v@.len() > 0 && v@[0] == '+' {
        v@.skip(1)
    } else {
        v@
    };
    proof {
        assert(digits =~= v@.subrange(start as int, n as int));
    }
    if start == n {
        return None;
    }
    let mut acc: u64 = 0;
    let mut i: usize = start;
    while i < n
        invariant
            start <= i <= n,
            n == v@.len(),
            start as int == (if v@.len() > 0 && v@[0] == '+' { 1int } else { 0int }),
            digits =~= v@.subrange(start as int, n as int),
            all_digits(digits.take(i - start as int)),
            acc == digits_val(digits.take(i - start as int)),
        decreases n - i,
    {
        let c = v[i];
        let u = c as u32;
        if !(48 <= u && u <= 57) {
            proof {
                assert(digits[i - start as int] == v@[i as int]);
                assert(!is_digit(digits[i - start as int]));
                assert(!all_digits(digits));
                assert(spec_parse_u64(v@) is None) by {
                    let dd = if v@.len() > 0 && v@[0] == '+' {
                        v@.skip(1)
                    } else {
                        v@
                    };
                    if v@.len() > 0 && v@[0] == '+' {
                        assert(v@.skip(1) =~= v@.subrange(1, n as int));
                    } else {
                        assert(v@ =~= v@.subrange(0, n as int));
                    }
                    assert(dd =~= digits);
                    assert(!all_digits(dd));
                };
            }
            return None;
        }
        let d: u64 = (u - 48) as u64;
        proof {
            assert(digits.take(i - start + 1 as int).drop_last() =~= digits.take(i - start as int));
            assert(digits.take(i - start + 1 as int).last() == v@[i as int]);
        }
        if acc > (u64::MAX - d) / 10 {
            proof {
                assert(digits_val(digits.take(i - start + 1 as int)) == acc * 10 + d);
                assert(acc * 10 + d > u64::MAX) by (nonlinear_arith)
                    requires
                        acc > (u64::MAX - d) / 10,
                        0 <= d <= 9,
                ;
                assert(all_digits(digits.take(i - start + 1 as int)));
                if all_digits(digits) {
                    lemma_digits_val_prefix(digits, i - start + 1);
                    assert(digits.take(digits.len() as int) =~= digits);
                    assert(digits_val(digits) > u64::MAX);
                }
                assert(spec_parse_u64(v@) is None) by {
                    let dd = if v@.len() > 0 && v@[0] == '+' {
                        v@.skip(1)
                    } else {
                        v@
                    };
                    if v@.len() > 0 && v@[0] == '+' {
                        assert(v@.skip(1) =~= v@.subrange(1, n as int));
                    } else {
                        assert(v@ =~= v@.subrange(0, n as int));
                    }
                    assert(dd =~= digits);
                };
            }
            return None;
        }
        proof {
            assert(acc * 10 + d <= u64::MAX) by (nonlinear_arith)
                requires
                    acc <= (u64::MAX - d) / 10,
                    0 <= d <= 9,
            ;
        }
        acc = acc * 10 + d;
        i = i + 1;
    }
    proof {
        assert(digits.take(n - start as int) =~= digits);
        assert(spec_parse_u64(v@) == Some(acc)) by {
            let dd = if v@.len() > 0 && v@[0] == '+' {
                v@.skip(1)
            } else {
                v@
            };
            if v@.len() > 0 && v@[0] == '+' {
                assert(v@.skip(1) =~= v@.subrange(1, n as int));
            } else {
                assert(v@ =~= v@.subrange(0, n as int));
            }
            assert(dd =~= digits);
            assert(all_digits(dd));
            assert(digits_val(dd) == acc);
        };
    }
    Some(acc)
}

/// What `str::trim` leaves: the text with leading and trailing Unicode
/// whitespace removed.
pub open spec fn spec_trim(s: Seq<char>) -> Seq<char> {
    if ws_start(s) >= ws_end(s) {
        Seq::empty()
    } else {
        s.subrange(ws_start(s), ws_end(s))
    }
}

/// Trim leading and trailing whitespace from a character vector.
pub fn trim_chars(s: &Vec<char>) -> (r: Vec<char>)
    ensures
        r@ == spec_trim(s@),
{
    proof {
        lemma_skip_while_ws_bounds(s@, 0, true);
        lemma_ws_end_bounds(s@);
    }
    let mut start: usize = 0;
    while start < s.len() && is_ws_char(s[start])
        invariant
            0 <= start <= s@.len(),
            forall|k: int| 0 <= k < start ==> is_ws(s@[k]),
            skip_while_ws(s@, 0, true) == skip_while_ws(s@, start as int, true),
        decreases s@.len() - start,
    {
        start = start + 1;
    }
    assert(start == ws_start(s@));
    let mut end: usize = s.len();
    while end > start && is_ws_char(s[end - 1])
        invariant
            start <= end <= s@.len(),
            start == ws_start(s@),
            forall|k: int| end <= k < s@.len() ==> is_ws(s@[k]),
            ws_end(s@) <= end || ws_end(s@) <= start,
        decreases end,
    {
        assert(ws_end(s@) != end) by {
            if ws_end(s@) == end {
                lemma_ws_end_bounds(s@);
            }
        }
        end = end - 1;
    }
    let mut r: Vec<char> = Vec::new();
    let mut i: usize = start;
    while i < end
        invariant
            start <= i <= end <= s@.len(),
            r@ == s@.subrange(start as int, i as int),
        decreases end - i,
    {
        r.push(s[i]);
        assert(r@ == s@.subrange(start as int, i + 1 as int)) by {
            assert(s@.subrange(start as int, i + 1 as int) == s@.subrange(start as int, i as int).push(
                s@[i as int],
            ));
        }
        i = i + 1;
    }
    proof {
        if end > start {
            assert(!is_ws(s@[end - 1]));
            lemma_ws_end_bounds(s@);
            assert(ws_end(s@) == end) by {
                if ws_end(s@) < end {
                    assert(is_ws(s@[end - 1]));
                }
            }
            assert(r@ == spec_trim(s@));
        } else {
            assert(ws_start(s@) >= end);
            if ws_end(s@) > ws_start(s@) {
                assert(!is_ws(s@[ws_end(s@) - 1]));
                assert(is_ws(s@[ws_end(s@) - 1]));
            }
            assert(r@ =~= spec_trim(s@));
        }
    }
    r
}

} // verus!
