//! Scanning of received text: surrounding white space, comma-separated
//! fields and decimal numbers.
use vstd::prelude::*;

verus! {

/// Whether `c` has the Unicode White_Space property.
pub open spec fn is_white_space(c: char) -> bool {
    ('\u{9}' <= c && c <= '\u{d}') || c == ' ' || c == '\u{85}' || c == '\u{a0}' || c
        == '\u{1680}' || ('\u{2000}' <= c && c <= '\u{200a}') || c == '\u{2028}' || c
        == '\u{2029}' || c == '\u{202f}' || c == '\u{205f}' || c == '\u{3000}'
}

/// `s` without its leading white space.
pub open spec fn trim_start(s: Seq<char>) -> Seq<char>
    decreases s.len(),
{
    if s.len() > 0 && is_white_space(s[0]) {
        trim_start(s.drop_first())
    } else {
        s
    }
}

/// `s` without its trailing white space.
pub open spec fn trim_end(s: Seq<char>) -> Seq<char>
    decreases s.len(),
{
    if s.len() > 0 && is_white_space(s.last()) {
        trim_end(s.drop_last())
    } else {
        s
    }
}

/// `s` without white space at either end.
pub open spec fn trim(s: Seq<char>) -> Seq<char> {
    trim_end(trim_start(s))
}

/// Whether `s` holds no comma.
pub open spec fn no_comma(s: Seq<char>) -> bool {
    forall|i: int| 0 <= i < s.len() ==> s[i] != ','
}

/// Whether the comma at `i` is the only one in `s`.
pub open spec fn is_sole_comma(s: Seq<char>, i: int) -> bool {
    0 <= i < s.len() && s[i] == ',' && no_comma(s.take(i)) && no_comma(s.skip(i + 1))
}

/// The two fields of `s` where it holds exactly one comma; `None` otherwise.
pub open spec fn two_fields(s: Seq<char>) -> Option<(Seq<char>, Seq<char>)> {
    if exists|i: int| is_sole_comma(s, i) {
        let i = choose|i: int| is_sole_comma(s, i);
        Some((s.take(i), s.skip(i + 1)))
    } else {
        None
    }
}

/// Whether `c` is one of the digits `0` to `9`.
pub open spec fn is_decimal_digit(c: char) -> bool {
    '0' <= c && c <= '9'
}

/// Whether every character of `s` is a decimal digit.
pub open spec fn all_decimal_digits(s: Seq<char>) -> bool {
    forall|i: int| 0 <= i < s.len() ==> is_decimal_digit(#[trigger] s[i])
}

/// The number that the decimal digits `s` stand for; zero for no digits.
pub open spec fn decimal_value(s: Seq<char>) -> int
    decreases s.len(),
{
    if s.len() == 0 {
        0
    } else {
        10 * decimal_value(s.drop_last()) + (s.last() as int - '0' as int)
    }
}

/// The byte that the decimal digits `s` stand for; `None` where `s` is
/// empty, holds another character, or the number exceeds 255.
pub open spec fn parse_decimal_u8(s: Seq<char>) -> Option<u8> {
    if s.len() > 0 && all_decimal_digits(s) && decimal_value(s) <= 255 {
        Some(decimal_value(s) as u8)
    } else {
        None
    }
}

/// Two commas cannot both be the only one.
proof fn lemma_sole_comma_unique(s: Seq<char>, i: int, j: int)
    requires
        is_sole_comma(s, i),
        is_sole_comma(s, j),
    ensures
        i == j,
{
    if i < j {
        assert(s.take(j)[i] == ',');
    } else if j < i {
        assert(s.take(i)[j] == ',');
    }
}

/// A prefix of a string of digits has no greater value than the whole.
proof fn lemma_decimal_prefix_le(s: Seq<char>, j: int)
    requires
        all_decimal_digits(s),
        0 <= j <= s.len(),
    ensures
        0 <= decimal_value(s.take(j)) <= decimal_value(s),
    decreases s.len(),
{
    if j == s.len() {
        assert(s.take(j) =~= s);
        lemma_decimal_nonneg(s);
    } else {
        let t = s.drop_last();
        assert(all_decimal_digits(t)) by {
            assert forall|i: int| 0 <= i < t.len() implies is_decimal_digit(#[trigger] t[i]) by {
                assert(t[i] == s[i]);
            }
        }
        assert(s.take(j) =~= t.take(j));
        lemma_decimal_prefix_le(t, j);
        lemma_decimal_nonneg(t);
        assert(is_decimal_digit(s[s.len() - 1]));
    }
}

/// A string of digits has a value of at least zero.
proof fn lemma_decimal_nonneg(s: Seq<char>)
    requires
        all_decimal_digits(s),
    ensures
        decimal_value(s) >= 0,
    decreases s.len(),
{
    if s.len() > 0 {
        let t = s.drop_last();
        assert(all_decimal_digits(t)) by {
            assert forall|i: int| 0 <= i < t.len() implies is_decimal_digit(#[trigger] t[i]) by {
                assert(t[i] == s[i]);
            }
        }
        lemma_decimal_nonneg(t);
        assert(is_decimal_digit(s[s.len() - 1]));
    }
}

/// Whether `c` has the Unicode White_Space property.
pub fn is_white_space_char(c: char) -> (r: bool)
    ensures
        r == is_white_space(c),
{
    ('\u{9}' <= c && c <= '\u{d}') || c == ' ' || c == '\u{85}' || c == '\u{a0}' || c
        == '\u{1680}' || ('\u{2000}' <= c && c <= '\u{200a}') || c == '\u{2028}' || c
        == '\u{2029}' || c == '\u{202f}' || c == '\u{205f}' || c == '\u{3000}'
}

/// The bounds of `cs[lo..hi]` without white space at either end.
pub fn trim_range(cs: &Vec<char>, lo: usize, hi: usize) -> (r: (usize, usize))
    requires
        lo <= hi <= cs@.len(),
    ensures
        lo <= r.0 <= r.1 <= hi,
        cs@.subrange(r.0 as int, r.1 as int) == trim(cs@.subrange(lo as int, hi as int)),
{
    let mut start = lo;
    while start < hi && is_white_space_char(cs[start])
        invariant
            lo <= start <= hi <= cs@.len(),
            trim_start(cs@.subrange(lo as int, hi as int)) == trim_start(
                cs@.subrange(start as int, hi as int),
            ),
        decreases hi - start,
    {
        assert(cs@.subrange(start as int, hi as int).drop_first() =~= cs@.subrange(
            start + 1,
            hi as int,
        ));
        start = start + 1;
    }
    let mut end = hi;
    while end > start && is_white_space_char(cs[end - 1])
        invariant
            lo <= start <= end <= hi <= cs@.len(),
            trim_end(cs@.subrange(start as int, hi as int)) == trim_end(
                cs@.subrange(start as int, end as int),
            ),
        decreases end - start,
    {
        assert(cs@.subrange(start as int, end as int).drop_last() =~= cs@.subrange(
            start as int,
            end - 1,
        ));
        end = end - 1;
    }
    (start, end)
}

/// The first index in `lo..hi` that holds `c`, or `hi` where none does.
pub fn find_char(cs: &Vec<char>, lo: usize, hi: usize, c: char) -> (r: usize)
    requires
        lo <= hi <= cs@.len(),
    ensures
        lo <= r <= hi,
        forall|k: int| lo <= k < r ==> cs@[k] != c,
        r < hi ==> cs@[r as int] == c,
{
    let mut k = lo;
    while k < hi && cs[k] != c
        invariant
            lo <= k <= hi <= cs@.len(),
            forall|i: int| lo <= i < k ==> cs@[i] != c,
        decreases hi - k,
    {
        k = k + 1;
    }
    k
}

/// Where `cs[lo..hi]` holds exactly one comma, its index.
pub fn split_two_fields(cs: &Vec<char>, lo: usize, hi: usize) -> (r: Option<usize>)
    requires
        lo <= hi <= cs@.len(),
    ensures
        match two_fields(cs@.subrange(lo as int, hi as int)) {
            Some((a, b)) => r matches Some(k) && lo <= k < hi && a == cs@.subrange(
                lo as int,
                k as int,
            ) && b == cs@.subrange(k + 1, hi as int),
            None => r is None,
        },
{
    let ghost s = cs@.subrange(lo as int, hi as int);
    let k = find_char(cs, lo, hi, ',');
    if k == hi {
        assert forall|i: int| !is_sole_comma(s, i) by {
            if 0 <= i < s.len() {
                assert(s[i] == cs@[lo + i]);
            }
        }
        return None;
    }
    let k2 = find_char(cs, k + 1, hi, ',');
    let ghost i0 = k - lo;
    assert(no_comma(s.take(i0))) by {
        assert forall|i: int| 0 <= i < i0 implies #[trigger] s.take(i0)[i] != ',' by {
            assert(s.take(i0)[i] == cs@[lo + i]);
        }
    }
    if k2 < hi {
        assert forall|i: int| !is_sole_comma(s, i) by {
            if is_sole_comma(s, i) {
                assert(s[i0] == ',');
                assert(is_sole_comma(s, i0) ==> i == i0) by {
                    if is_sole_comma(s, i0) {
                        lemma_sole_comma_unique(s, i, i0);
                    }
                }
                if i < i0 {
                    assert(s[i] == cs@[lo + i]);
                } else if i > i0 {
                    assert(s.take(i)[i0] == ',');
                } else {
                    assert(s.skip(i + 1)[k2 - k - 1] == ',');
                }
            }
        }
        return None;
    }
    assert(no_comma(s.skip(i0 + 1))) by {
        assert forall|i: int| 0 <= i < s.skip(i0 + 1).len() implies #[trigger] s.skip(i0 + 1)[i]
            != ',' by {
            assert(s.skip(i0 + 1)[i] == cs@[k + 1 + i]);
        }
    }
    assert(is_sole_comma(s, i0));
    let ghost j = choose|i: int| is_sole_comma(s, i);
    proof {
        lemma_sole_comma_unique(s, i0, j);
    }
    assert(s.take(i0) =~= cs@.subrange(lo as int, k as int));
    assert(s.skip(i0 + 1) =~= cs@.subrange(k + 1, hi as int));
    Some(k)
}

/// Reads the characters `cs[lo..hi]` as a decimal byte, refusing an empty
/// range, any other character and any number above 255.
pub fn parse_decimal_range(cs: &Vec<char>, lo: usize, hi: usize) -> (r: Option<u8>)
    requires
        lo <= hi <= cs@.len(),
    ensures
        r == parse_decimal_u8(cs@.subrange(lo as int, hi as int)),
{
    let ghost s = cs@.subrange(lo as int, hi as int);
    if lo == hi {
        return None;
    }
    let mut result: u8 = 0;
    let mut k = lo;
    while k < hi
        invariant
            lo <= k <= hi <= cs@.len(),
            s == cs@.subrange(lo as int, hi as int),
            all_decimal_digits(s.take(k - lo)),
            result as int == decimal_value(s.take(k - lo)),
        decreases hi - k,
    {
        let ch = cs[k];
        let ghost t = s.take(k - lo + 1);
        assert(t.drop_last() =~= s.take(k - lo));
        assert(t.last() == ch);
        if !('0' <= ch && ch <= '9') {
            assert(!is_decimal_digit(s[k - lo]));
            return None;
        }
        let digit = ((ch as u32) - 48) as u8;
        match result.checked_mul(10) {
            Some(m) => match m.checked_add(digit) {
                Some(n) => {
                    result = n;
                },
                None => {
                    proof {
                        lemma_overflow_refused(s, k - lo + 1);
                    }
                    return None;
                },
            },
            None => {
                proof {
                    lemma_decimal_nonneg(s.take(k - lo));
                    lemma_overflow_refused(s, k - lo + 1);
                }
                return None;
            },
        }
        assert(all_decimal_digits(t)) by {
            assert forall|i: int| 0 <= i < t.len() implies is_decimal_digit(#[trigger] t[i]) by {
                if i < t.len() - 1 {
                    assert(t[i] == s.take(k - lo)[i]);
                }
            }
        }
        k = k + 1;
    }
    assert(s.take(hi - lo) =~= s);
    Some(result)
}

/// Where the first `j` characters of `s` are digits worth more than 255, `s`
/// is no decimal byte.
proof fn lemma_overflow_refused(s: Seq<char>, j: int)
    requires
        0 <= j <= s.len(),
        decimal_value(s.take(j)) > 255,
    ensures
        parse_decimal_u8(s) is None,
{
    if all_decimal_digits(s) {
        lemma_decimal_prefix_le(s, j);
    }
}

} // verus!
