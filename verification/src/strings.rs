//! Verified character-level utilities on `&str` and `String`: equality,
//! substring and character search, suffix tests, replacement, suffix
//! trimming, splitting, decimal formatting and parsing of 64-bit integers,
//! and a trusted case-folding wrapper.

use vstd::prelude::*;

verus! {

/// True when the two string slices hold the same sequence of characters.
pub fn str_eq(a: &str, b: &str) -> (r: bool)
    ensures
        r == (a@ == b@),
{
    let alen = a.unicode_len();
    let blen = b.unicode_len();
    if alen != blen {
        return false;
    }
    let mut i: usize = 0;
    while i < alen
        invariant
            alen == a@.len(),
            alen == b@.len(),
            i <= alen,
            forall|j: int| 0 <= j < i ==> a@[j] == b@[j],
        decreases alen - i,
    {
        if a.get_char(i) != b.get_char(i) {
            return false;
        }
        i += 1;
    }
    proof {
        assert(a@ =~= b@);
    }
    true
}

/// Relies on std's `String::push`: appends exactly the given character.
#[verifier::external_body]
pub(crate) fn push_char(s: &mut String, c: char)
    ensures
        final(s)@ == old(s)@.push(c),
{
    s.push(c);
}

/// The characters that a call of std's `str::to_lowercase` returns; the
/// result depends on the input characters alone.
pub uninterp spec fn lower_of(s: Seq<char>) -> Seq<char>;

/// Relies on std's `str::to_lowercase`: the result is a function of the
/// input characters alone.
#[verifier::external_body]
pub(crate) fn lowercase(s: &str) -> (r: String)
    ensures
        r@ == lower_of(s@),
{
    s.to_lowercase()
}

/// True when `hay` matches `needle` at position `i`.
fn match_at(hay: &str, needle: &str, i: usize) -> (r: bool)
    requires
        i + needle@.len() <= hay@.len(),
    ensures
        r == (hay@.subrange(i as int, i + needle@.len()) == needle@),
{
    let h = hay.unicode_len();
    let m = needle.unicode_len();
    let mut j: usize = 0;
    while j < m
        invariant
            h == hay@.len(),
            m == needle@.len(),
            i + m <= h,
            j <= m,
            forall|k: int| 0 <= k < j ==> hay@[i + k] == needle@[k],
        decreases m - j,
    {
        if hay.get_char(i + j) != needle.get_char(j) {
            proof {
                assert(hay@.subrange(i as int, i + m)[j as int] == hay@[i + j]);
            }
            return false;
        }
        j += 1;
    }
    proof {
        assert(hay@.subrange(i as int, i + m) =~= needle@);
    }
    true
}

/// True when `needle` occurs as a contiguous subsequence of `hay`.
pub open spec fn spec_contains_seq(hay: Seq<char>, needle: Seq<char>) -> bool {
    exists|i: int|
        0 <= i && i + needle.len() <= hay.len() && #[trigger] hay.subrange(
            i,
            i + needle.len() as int,
        ) == needle
}

/// Substring search: true when `needle` occurs anywhere in `hay`.
pub fn str_contains(hay: &str, needle: &str) -> (r: bool)
    ensures
        r == spec_contains_seq(hay@, needle@),
{
    let h = hay.unicode_len();
    let m = needle.unicode_len();
    if m > h {
        return false;
    }
    if m == 0 {
        proof {
            assert(hay@.subrange(0, 0 + needle@.len() as int) =~= needle@);
        }
        return true;
    }
    let mut i: usize = 0;
    while i <= h - m
        invariant
            h == hay@.len(),
            m == needle@.len(),
            1 <= m <= h,
            i <= h - m + 1,
            forall|k: int| 0 <= k < i ==> #[trigger] hay@.subrange(k, k + m) != needle@,
        decreases h - i,
    {
        if match_at(hay, needle, i) {
            return true;
        }
        i += 1;
    }
    false
}

/// True when `p` is a suffix of `s`.
pub open spec fn spec_ends_with(s: Seq<char>, p: Seq<char>) -> bool {
    s.len() >= p.len() && s.subrange(s.len() - p.len(), s.len() as int) == p
}

/// Suffix test.
pub fn str_ends_with(s: &str, p: &str) -> (r: bool)
    ensures
        r == spec_ends_with(s@, p@),
{
    let n = s.unicode_len();
    let m = p.unicode_len();
    if m > n {
        return false;
    }
    match_at(s, p, n - m)
}

/// Every occurrence of `pat` in `s`, found left to right without overlap,
/// replaced by `rep`.
pub open spec fn spec_replace(s: Seq<char>, pat: Seq<char>, rep: Seq<char>) -> Seq<char>
    decreases s.len(),
{
    if pat.len() == 0 || s.len() < pat.len() {
        s
    } else if s.subrange(0, pat.len() as int) == pat {
        rep + spec_replace(s.skip(pat.len() as int), pat, rep)
    } else {
        seq![s[0]] + spec_replace(s.skip(1), pat, rep)
    }
}

/// Replaces every occurrence of `pat` in `s` by `rep`, scanning left to
/// right without overlap.
pub fn replace_all(s: &str, pat: &str, rep: &str) -> (r: String)
    requires
        pat@.len() >= 1,
    ensures
        r@ == spec_replace(s@, pat@, rep@),
    decreases s@.len(),
{
    let n = s.unicode_len();
    let m = pat.unicode_len();
    if n < m {
        return String::from_str(s);
    }
    if match_at(s, pat, 0) {
        let mut out = String::from_str(rep);
        let tail = replace_all(s.substring_char(m, n), pat, rep);
        out.append(tail.as_str());
        proof {
            assert(s@.subrange(m as int, n as int) =~= s@.skip(m as int));
        }
        out
    } else {
        let mut out = String::new();
        push_char(&mut out, s.get_char(0));
        let tail = replace_all(s.substring_char(1, n), pat, rep);
        out.append(tail.as_str());
        proof {
            assert(s@.subrange(1, n as int) =~= s@.skip(1));
            assert(out@ =~= seq![s@[0]] + spec_replace(s@.skip(1), pat@, rep@));
        }
        out
    }
}

/// `s` with every trailing occurrence of `suf` removed, one after another.
pub open spec fn spec_trim_end(s: Seq<char>, suf: Seq<char>) -> Seq<char>
    decreases s.len(),
{
    if suf.len() > 0 && s.len() >= suf.len() && s.subrange(s.len() - suf.len(), s.len() as int)
        == suf {
        spec_trim_end(s.subrange(0, s.len() - suf.len()), suf)
    } else {
        s
    }
}

/// Removes every trailing occurrence of `suf` from `s`.
pub fn trim_end_matches(s: &str, suf: &str) -> (r: String)
    ensures
        r@ == spec_trim_end(s@, suf@),
    decreases s@.len(),
{
    let n = s.unicode_len();
    let m = suf.unicode_len();
    if m > 0 && n >= m && match_at(s, suf, n - m) {
        trim_end_matches(s.substring_char(0, n - m), suf)
    } else {
        String::from_str(s)
    }
}

/// True when `s[i]` is the first occurrence of `c` in `s`.
pub open spec fn first_occurrence_at(s: Seq<char>, c: char, i: int) -> bool {
    &&& 0 <= i < s.len()
    &&& s[i] == c
    &&& forall|j: int| 0 <= j < i ==> s[j] != c
}

/// The position of the first occurrence of `c` in `s`, if any.
pub open spec fn spec_find_char(s: Seq<char>, c: char) -> Option<int> {
    if exists|i: int| first_occurrence_at(s, c, i) {
        Some(choose|i: int| first_occurrence_at(s, c, i))
    } else {
        None
    }
}

/// Finds the first occurrence of a character.
pub fn find_char(s: &str, c: char) -> (r: Option<usize>)
    ensures
        r is Some <==> spec_find_char(s@, c) is Some,
        r is Some ==> spec_find_char(s@, c) == Some(r->0 as int),
{
    let n = s.unicode_len();
    let mut i: usize = 0;
    while i < n
        invariant
            n == s@.len(),
            i <= n,
            forall|j: int| 0 <= j < i ==> s@[j] != c,
        decreases n - i,
    {
        if s.get_char(i) == c {
            proof {
                assert(first_occurrence_at(s@, c, i as int));
                let k = choose|k: int| first_occurrence_at(s@, c, k);
                assert(k == i) by {
                    if k < i {
                        assert(s@[k] != c);
                    } else if k > i {
                        assert(s@[i as int] != c);
                    }
                }
            }
            return Some(i);
        }
        i += 1;
    }
    proof {
        assert(!(exists|k: int| first_occurrence_at(s@, c, k))) by {
            if exists|k: int| first_occurrence_at(s@, c, k) {
                let k = choose|k: int| first_occurrence_at(s@, c, k);
                assert(s@[k] != c);
            }
        }
    }
    None
}

/// True when `p` occurs in `s` at position `i`.
pub open spec fn substr_at(s: Seq<char>, p: Seq<char>, i: int) -> bool {
    0 <= i && i + p.len() <= s.len() && s.subrange(i, i + p.len() as int) == p
}

/// True when position `i` holds the first occurrence of `p` in `s`.
pub open spec fn first_substr_at(s: Seq<char>, p: Seq<char>, i: int) -> bool {
    substr_at(s, p, i) && forall|j: int| 0 <= j < i ==> !substr_at(s, p, j)
}

/// True when position `i` holds the last occurrence of `p` in `s`.
pub open spec fn last_substr_at(s: Seq<char>, p: Seq<char>, i: int) -> bool {
    substr_at(s, p, i) && forall|j: int| i < j ==> !substr_at(s, p, j)
}

/// The position of the first occurrence of `p` in `s`, if any.
pub open spec fn spec_find_first_sub(s: Seq<char>, p: Seq<char>) -> Option<int> {
    if exists|i: int| first_substr_at(s, p, i) {
        Some(choose|i: int| first_substr_at(s, p, i))
    } else {
        None
    }
}

/// The position of the last occurrence of `p` in `s`, if any.
pub open spec fn spec_find_last_sub(s: Seq<char>, p: Seq<char>) -> Option<int> {
    if exists|i: int| last_substr_at(s, p, i) {
        Some(choose|i: int| last_substr_at(s, p, i))
    } else {
        None
    }
}

/// Finds the first occurrence of `p` in `s`.
pub fn find_first_sub(s: &str, p: &str) -> (r: Option<usize>)
    ensures
        r is Some <==> spec_find_first_sub(s@, p@) is Some,
        r is Some ==> spec_find_first_sub(s@, p@) == Some(r->0 as int),
{
    let h = s.unicode_len();
    let m = p.unicode_len();
    if m > h {
        proof {
            assert(!(exists|i: int| first_substr_at(s@, p@, i))) by {
                if exists|i: int| first_substr_at(s@, p@, i) {
                    let i = choose|i: int| first_substr_at(s@, p@, i);
                    assert(substr_at(s@, p@, i));
                }
            }
        }
        return None;
    }
    if m == 0 {
        proof {
            assert(s@.subrange(0, 0 + p@.len() as int) =~= p@);
            assert(first_substr_at(s@, p@, 0));
            let k = choose|k: int| first_substr_at(s@, p@, k);
            assert(k == 0) by {
                if k > 0 {
                    assert(!substr_at(s@, p@, 0));
                }
            }
        }
        return Some(0);
    }
    let mut i: usize = 0;
    while i <= h - m
        invariant
            h == s@.len(),
            m == p@.len(),
            1 <= m <= h,
            i <= h - m + 1,
            forall|j: int| 0 <= j < i ==> !substr_at(s@, p@, j),
        decreases h - m - i + 1,
    {
        if match_at(s, p, i) {
            proof {
                assert(first_substr_at(s@, p@, i as int));
                let k = choose|k: int| first_substr_at(s@, p@, k);
                assert(k == i) by {
                    if k < i {
                        assert(!substr_at(s@, p@, k));
                    } else if k > i {
                        assert(!substr_at(s@, p@, i as int));
                    }
                }
            }
            return Some(i);
        }
        i += 1;
    }
    proof {
        assert(!(exists|k: int| first_substr_at(s@, p@, k))) by {
            if exists|k: int| first_substr_at(s@, p@, k) {
                let k = choose|k: int| first_substr_at(s@, p@, k);
                assert(!substr_at(s@, p@, k));
            }
        }
    }
    None
}

/// Finds the last occurrence of `p` in `s`.
pub fn find_last_sub(s: &str, p: &str) -> (r: Option<usize>)
    ensures
        r is Some <==> spec_find_last_sub(s@, p@) is Some,
        r is Some ==> spec_find_last_sub(s@, p@) == Some(r->0 as int),
{
    let h = s.unicode_len();
    let m = p.unicode_len();
    if m > h {
        proof {
            assert(!(exists|i: int| last_substr_at(s@, p@, i))) by {
                if exists|i: int| last_substr_at(s@, p@, i) {
                    let i = choose|i: int| last_substr_at(s@, p@, i);
                    assert(substr_at(s@, p@, i));
                }
            }
        }
        return None;
    }
    if m == 0 {
        proof {
            assert(s@.subrange(h as int, h as int + p@.len() as int) =~= p@);
            assert(last_substr_at(s@, p@, h as int));
            let k = choose|k: int| last_substr_at(s@, p@, k);
            assert(k == h) by {
                if k > h {
                    assert(!substr_at(s@, p@, k));
                } else if k < h {
                    assert(!substr_at(s@, p@, h as int));
                }
            }
        }
        return Some(h);
    }
    let mut i: usize = h - m + 1;
    while i > 0
        invariant
            h == s@.len(),
            m == p@.len(),
            1 <= m <= h,
            i <= h - m + 1,
            forall|j: int| i <= j ==> !substr_at(s@, p@, j),
        decreases i,
    {
        i -= 1;
        if match_at(s, p, i) {
            proof {
                assert(last_substr_at(s@, p@, i as int));
                let k = choose|k: int| last_substr_at(s@, p@, k);
                assert(k == i) by {
                    if k > i {
                        assert(!substr_at(s@, p@, k));
                    } else if k < i {
                        assert(!substr_at(s@, p@, i as int));
                    }
                }
            }
            return Some(i);
        }
        proof {
            assert forall|j: int| i <= j implies !substr_at(s@, p@, j) by {
                if j > i as int {
                    assert(!substr_at(s@, p@, j));
                }
            }
        }
    }
    proof {
        assert(!(exists|k: int| last_substr_at(s@, p@, k))) by {
            if exists|k: int| last_substr_at(s@, p@, k) {
                let k = choose|k: int| last_substr_at(s@, p@, k);
                assert(!substr_at(s@, p@, k));
            }
        }
    }
    None
}

/// The segments of `s` between occurrences of the separator `sep`: splitting
/// an empty string yields one empty segment, and every separator ends one
/// segment and starts the next.
pub open spec fn spec_split_char(s: Seq<char>, sep: char) -> Seq<Seq<char>>
    decreases s.len(),
{
    match spec_find_char(s, sep) {
        Some(i) => seq![s.subrange(0, i)] + spec_split_char(s.skip(i + 1), sep),
        None => seq![s],
    }
}

/// Splits `s` on every occurrence of `sep`.
pub fn split_char(s: &str, sep: char) -> (r: Vec<String>)
    ensures
        r@.len() == spec_split_char(s@, sep).len(),
        forall|i: int|
            0 <= i < r@.len() ==> (#[trigger] r@[i])@ == spec_split_char(s@, sep)[i],
    decreases s@.len(),
{
    let n = s.unicode_len();
    match find_char(s, sep) {
        Some(i) => {
            let first = String::from_str(s.substring_char(0, i));
            proof {
                let k = choose|k: int| first_occurrence_at(s@, sep, k);
                assert(0 <= k < s@.len());
            }
            let mut rest = split_char(s.substring_char(i + 1, n), sep);
            proof {
                assert(s@.subrange(i + 1, n as int) =~= s@.skip(i + 1));
            }
            rest.insert(0, first);
            proof {
                let parts = spec_split_char(s@, sep);
                assert(parts == seq![s@.subrange(0, i as int)] + spec_split_char(
                    s@.skip(i + 1),
                    sep,
                ));
                assert forall|k: int| 0 <= k < rest@.len() implies (#[trigger] rest@[k])@
                    == parts[k] by {
                    if k > 0 {
                        assert(parts[k] == spec_split_char(s@.skip(i + 1), sep)[k - 1]);
                    }
                }
            }
            rest
        },
        None => {
            let mut out: Vec<String> = Vec::new();
            out.push(String::from_str(s));
            out
        },
    }
}

/// True when `c` is a decimal digit.
pub open spec fn spec_is_digit(c: char) -> bool {
    48 <= c as u32 <= 57
}

/// The numeric value of a decimal digit character.
pub open spec fn spec_digit_val(c: char) -> int {
    c as u32 - 48
}

/// The character of a decimal digit value.
pub open spec fn spec_digit_char(d: int) -> char
    recommends
        0 <= d <= 9,
{
    if d == 0 {
        '0'
    } else if d == 1 {
        '1'
    } else if d == 2 {
        '2'
    } else if d == 3 {
        '3'
    } else if d == 4 {
        '4'
    } else if d == 5 {
        '5'
    } else if d == 6 {
        '6'
    } else if d == 7 {
        '7'
    } else if d == 8 {
        '8'
    } else {
        '9'
    }
}

/// The character of a decimal digit value.
fn digit_char_of(d: u64) -> (r: char)
    requires
        d <= 9,
    ensures
        r == spec_digit_char(d as int),
{
    if d == 0 {
        '0'
    } else if d == 1 {
        '1'
    } else if d == 2 {
        '2'
    } else if d == 3 {
        '3'
    } else if d == 4 {
        '4'
    } else if d == 5 {
        '5'
    } else if d == 6 {
        '6'
    } else if d == 7 {
        '7'
    } else if d == 8 {
        '8'
    } else {
        '9'
    }
}

/// The decimal digits of a natural number, most significant first.
pub open spec fn spec_nat_digits(n: nat) -> Seq<char>
    decreases n,
{
    if n < 10 {
        Seq::empty().push(spec_digit_char(n as int))
    } else {
        spec_nat_digits(n / 10).push(spec_digit_char((n % 10) as int))
    }
}

/// The decimal form of a signed integer: a minus sign for negative values,
/// then the digits of the magnitude.
pub open spec fn spec_i64_digits(n: int) -> Seq<char> {
    if n >= 0 {
        spec_nat_digits(n as nat)
    } else {
        seq!['-'] + spec_nat_digits((-n) as nat)
    }
}

/// The decimal digits of `m`, most significant first.
fn u64_digits(m: u64) -> (r: String)
    ensures
        r@ == spec_nat_digits(m as nat),
    decreases m,
{
    if m < 10 {
        let mut s = String::new();
        push_char(&mut s, digit_char_of(m));
        s
    } else {
        let mut s = u64_digits(m / 10);
        push_char(&mut s, digit_char_of(m % 10));
        s
    }
}

/// Formats a signed 64-bit integer in decimal.
pub fn i64_to_string(n: i64) -> (r: String)
    ensures
        r@ == spec_i64_digits(n as int),
{
    if n >= 0 {
        u64_digits(n as u64)
    } else {
        let mut s = String::new();
        push_char(&mut s, '-');
        let m128: i128 = -(n as i128);
        let m: u64 = m128 as u64;
        let d = u64_digits(m);
        s.append(d.as_str());
        proof {
            assert(s@ =~= spec_i64_digits(n as int));
        }
        s
    }
}

/// Formats an unsigned 64-bit integer in decimal.
pub fn u64_to_string(n: u64) -> (r: String)
    ensures
        r@ == spec_nat_digits(n as nat),
{
    u64_digits(n)
}

/// True when `s` is nonempty and all of its characters are decimal digits.
pub open spec fn spec_all_digits(s: Seq<char>) -> bool {
    s.len() > 0 && forall|i: int| 0 <= i < s.len() ==> spec_is_digit(#[trigger] s[i])
}

/// The value of a string of decimal digits, most significant first.
pub open spec fn spec_digits_val(s: Seq<char>) -> int
    decreases s.len(),
{
    if s.len() == 0 {
        0
    } else {
        spec_digits_val(s.drop_last()) * 10 + spec_digit_val(s.last())
    }
}

/// The integer that `s` denotes: an optional sign, then one or more decimal
/// digits, with the value within the 64-bit signed range; `None` otherwise.
pub open spec fn spec_parse_i64(s: Seq<char>) -> Option<int> {
    let negative = s.len() > 0 && s[0] == '-';
    let rest = if s.len() > 0 && (s[0] == '-' || s[0] == '+') {
        s.skip(1)
    } else {
        s
    };
    if spec_all_digits(rest) {
        let v = if negative {
            -spec_digits_val(rest)
        } else {
            spec_digits_val(rest)
        };
        if i64::MIN <= v <= i64::MAX {
            Some(v)
        } else {
            None
        }
    } else {
        None
    }
}

/// A string of digits has a nonnegative value.
proof fn lemma_digits_val_nonneg(s: Seq<char>)
    requires
        forall|i: int| 0 <= i < s.len() ==> spec_is_digit(#[trigger] s[i]),
    ensures
        spec_digits_val(s) >= 0,
    decreases s.len(),
{
    if s.len() > 0 {
        lemma_digits_val_nonneg(s.drop_last());
    }
}

/// The value of a prefix of a digit string never exceeds the whole value.
proof fn lemma_digits_val_prefix(s: Seq<char>, i: int)
    requires
        0 <= i <= s.len(),
        forall|j: int| 0 <= j < s.len() ==> spec_is_digit(#[trigger] s[j]),
    ensures
        spec_digits_val(s.subrange(0, i)) <= spec_digits_val(s),
    decreases s.len() - i,
{
    if i < s.len() {
        lemma_digits_val_nonneg(s.subrange(0, i));
        assert(s.subrange(0, i + 1).drop_last() =~= s.subrange(0, i));
        assert(spec_digits_val(s.subrange(0, i + 1)) == spec_digits_val(s.subrange(0, i)) * 10
            + spec_digit_val(s[i]));
        lemma_digits_val_prefix(s, i + 1);
    } else {
        assert(s.subrange(0, i) =~= s);
    }
}

/// Parses an optionally signed decimal integer, as `str::parse::<i64>` does:
/// `None` when the string is empty, holds a character that is not a digit,
/// or denotes a value outside the 64-bit signed range.
pub fn parse_i64(s: &str) -> (r: Option<i64>)
    ensures
        r is Some <==> spec_parse_i64(s@) is Some,
        r is Some ==> r->0 as int == spec_parse_i64(s@)->0,
{
    let n = s.unicode_len();
    if n == 0 {
        return None;
    }
    let c0 = s.get_char(0);
    let negative = c0 == '-';
    let start: usize = if c0 == '-' || c0 == '+' {
        1
    } else {
        0
    };
    let ghost rest = if start == 1 {
        s@.skip(1)
    } else {
        s@
    };
    if start == n {
        return None;
    }
    let mut i: usize = start;
    let mut acc: i64 = 0;
    while i < n
        invariant
            n == s@.len(),
            start <= i <= n,
            start <= 1,
            start == 1 ==> (s@[0] == '-' || s@[0] == '+'),
            start == 0 ==> !(s@[0] == '-' || s@[0] == '+'),
            negative == (s@[0] == '-'),
            rest == s@.skip(start as int),
            rest.len() == n - start,
            forall|j: int| 0 <= j < i - start ==> spec_is_digit(#[trigger] rest[j]),
            acc <= 0,
            !negative ==> acc >= -i64::MAX,
            acc as int == -spec_digits_val(rest.subrange(0, i - start)),
        decreases n - i,
    {
        let c = s.get_char(i);
        let cv = c as u32;
        proof {
            assert(rest[i - start] == s@[i as int]);
        }
        if cv < 48 || cv > 57 {
            proof {
                assert(!spec_is_digit(rest[i - start]));
                assert(!spec_all_digits(rest));
            }
            return None;
        }
        let d: i128 = (cv - 48) as i128;
        let next: i128 = acc as i128 * 10 - d;
        let bound: i128 = if negative {
            i64::MIN as i128
        } else {
            -(i64::MAX as i128)
        };
        if next < bound {
            proof {
                let pre = rest.subrange(0, i + 1 - start);
                assert(pre.drop_last() =~= rest.subrange(0, i - start));
                assert(pre.last() == rest[i - start]);
                assert(spec_digits_val(pre) == -next);
                let rest2 = if s@.len() > 0 && (s@[0] == '-' || s@[0] == '+') {
                    s@.skip(1)
                } else {
                    s@
                };
                assert(rest2 == rest);
                if spec_all_digits(rest) {
                    lemma_digits_val_prefix(rest, i + 1 - start);
                    assert(spec_digits_val(pre) <= spec_digits_val(rest));
                    if negative {
                        assert(-spec_digits_val(rest2) < i64::MIN);
                    } else {
                        assert(spec_digits_val(rest2) > i64::MAX);
                    }
                    assert(spec_parse_i64(s@) is None);
                } else {
                    assert(spec_parse_i64(s@) is None);
                }
            }
            return None;
        }
        acc = next as i64;
        i += 1;
        proof {
            let pre = rest.subrange(0, i - start);
            assert(pre.drop_last() =~= rest.subrange(0, i - 1 - start));
            assert(pre.last() == rest[i - 1 - start]);
        }
    }
    proof {
        assert(rest.subrange(0, rest.len() as int) =~= rest);
        assert(spec_all_digits(rest));
    }
    if negative {
        Some(acc)
    } else {
        Some(-acc)
    }
}

/// The integer that `s` denotes, or zero when it denotes none.
pub open spec fn spec_parse_i64_or_zero(s: Seq<char>) -> int {
    match spec_parse_i64(s) {
        Some(v) => v,
        None => 0,
    }
}

/// Parses a decimal integer, defaulting to zero when the string does not
/// denote one.
pub fn parse_i64_or_zero(s: &str) -> (r: i64)
    ensures
        r as int == spec_parse_i64_or_zero(s@),
{
    match parse_i64(s) {
        Some(v) => v,
        None => 0,
    }
}

/// Law: parsing the decimal form of an integer yields the integer back.
pub proof fn lemma_parse_of_digits(n: i64)
    ensures
        spec_parse_i64(spec_i64_digits(n as int)) == Some(n as int),
{
    lemma_nat_digits_all_digits((if n >= 0 { n as int } else { -(n as int) }) as nat);
    lemma_digits_val_of_nat((if n >= 0 { n as int } else { -(n as int) }) as nat);
    let s = spec_i64_digits(n as int);
    if n >= 0 {
        let d = spec_nat_digits(n as nat);
        assert(spec_is_digit(d[0]));
        assert(!(d[0] == '-' || d[0] == '+'));
        assert(spec_parse_i64(s) == Some(n as int));
    } else {
        let m = (-(n as int)) as nat;
        let d = spec_nat_digits(m);
        assert(s == seq!['-'] + d);
        assert(s[0] == '-');
        assert(s.skip(1) =~= d);
        assert(spec_parse_i64(s) == Some(n as int));
    }
}

/// Every character of a natural number's decimal form is a digit.
proof fn lemma_nat_digits_all_digits(n: nat)
    ensures
        spec_all_digits(spec_nat_digits(n)),
    decreases n,
{
    if n < 10 {
        lemma_digit_val_of_char(n as int);
    } else {
        lemma_nat_digits_all_digits(n / 10);
        lemma_digit_val_of_char((n % 10) as int);
        let d = spec_nat_digits(n);
        let p = spec_nat_digits(n / 10);
        assert forall|i: int| 0 <= i < d.len() implies spec_is_digit(#[trigger] d[i]) by {
            if i < p.len() {
                assert(d[i] == p[i]);
            } else {
                assert(d[i] == spec_digit_char((n % 10) as int));
            }
        }
    }
}

/// The value of a natural number's decimal form is the number itself.
proof fn lemma_digits_val_of_nat(n: nat)
    ensures
        spec_digits_val(spec_nat_digits(n)) == n,
    decreases n,
{
    if n < 10 {
        let d = spec_nat_digits(n);
        assert(d.drop_last() =~= Seq::<char>::empty());
        assert(d.last() == spec_digit_char(n as int));
        lemma_digit_val_of_char(n as int);
        assert(spec_digits_val(Seq::<char>::empty()) == 0);
        assert(spec_digits_val(d) == spec_digits_val(d.drop_last()) * 10 + spec_digit_val(
            d.last(),
        ));
    } else {
        lemma_digits_val_of_nat(n / 10);
        let d = spec_nat_digits(n);
        assert(d.drop_last() =~= spec_nat_digits(n / 10));
        assert(d.last() == spec_digit_char((n % 10) as int));
        lemma_digit_val_of_char((n % 10) as int);
        assert(spec_digits_val(d) == spec_digits_val(d.drop_last()) * 10 + spec_digit_val(
            d.last(),
        ));
    }
}

/// A digit character's numeric value is the digit it was made from, and it
/// is a digit character.
proof fn lemma_digit_val_of_char(d: int)
    requires
        0 <= d <= 9,
    ensures
        spec_digit_val(spec_digit_char(d)) == d,
        spec_is_digit(spec_digit_char(d)),
{
}

} // verus!
