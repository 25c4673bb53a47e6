//! Verified text helpers: locating the last occurrence of a character,
//! locating the first occurrence of a pattern, prefix tests, and parsing a
//! string of decimal digits as an unsigned integer.

use vstd::prelude::*;

verus! {

/// The largest index at which `c` occurs in `s`, or -1 when it does not occur.
pub open spec fn last_index_of(s: Seq<char>, c: char) -> int
    decreases s.len(),
{
    if s.len() == 0 {
        -1
    } else if s.last() == c {
        s.len() - 1
    } else {
        last_index_of(s.drop_last(), c)
    }
}

/// `last_index_of` returns the largest occurrence index, or -1 when there is none.
pub proof fn lemma_last_index_of(s: Seq<char>, c: char)
    ensures
        -1 <= last_index_of(s, c) < s.len(),
        last_index_of(s, c) >= 0 ==> s[last_index_of(s, c)] == c,
        forall|j: int| last_index_of(s, c) < j < s.len() ==> s[j] != c,
    decreases s.len(),
{
    if s.len() > 0 && s.last() != c {
        lemma_last_index_of(s.drop_last(), c);
        assert(forall|j: int| 0 <= j < s.len() - 1 ==> s[j] == s.drop_last()[j]);
    }
}

/// The pattern `pat` occurs in `s` starting at index `i`.
pub open spec fn match_at(s: Seq<char>, pat: Seq<char>, i: int) -> bool {
    0 <= i && i + pat.len() <= s.len() && s.subrange(i, i + pat.len()) == pat
}

/// `pat` occurs somewhere in `s`.
pub open spec fn has_match(s: Seq<char>, pat: Seq<char>) -> bool {
    exists|i: int| match_at(s, pat, i)
}

/// The smallest index at which `pat` occurs in `s`, or -1 when it does not occur.
pub open spec fn first_match(s: Seq<char>, pat: Seq<char>) -> int
    decreases s.len(),
{
    if pat.len() > s.len() {
        -1
    } else if s.subrange(0, pat.len() as int) == pat {
        0
    } else if s.len() == 0 {
        -1
    } else {
        let r = first_match(s.drop_first(), pat);
        if r < 0 {
            -1
        } else {
            r + 1
        }
    }
}

/// A match of `pat` one position further into `s` is a match in `s.drop_first()`.
proof fn lemma_match_at_shift(s: Seq<char>, pat: Seq<char>, i: int)
    requires
        s.len() > 0,
        0 <= i,
    ensures
        match_at(s, pat, i + 1) == match_at(s.drop_first(), pat, i),
{
    if i + 1 + pat.len() <= s.len() {
        assert(s.subrange(i + 1, i + 1 + pat.len() as int) =~= s.drop_first().subrange(
            i,
            i + pat.len() as int,
        ));
    }
}

/// `first_match` returns the smallest occurrence index, or -1 when there is none.
pub proof fn lemma_first_match(s: Seq<char>, pat: Seq<char>)
    ensures
        first_match(s, pat) >= -1,
        first_match(s, pat) >= 0 ==> match_at(s, pat, first_match(s, pat)),
        forall|j: int| 0 <= j < first_match(s, pat) ==> !match_at(s, pat, j),
        first_match(s, pat) == -1 ==> forall|j: int| !match_at(s, pat, j),
    decreases s.len(),
{
    if pat.len() > s.len() {
        assert(forall|j: int| !match_at(s, pat, j));
    } else if s.subrange(0, pat.len() as int) == pat {
        assert(match_at(s, pat, 0));
    } else if s.len() == 0 {
        assert(pat.len() == 0);
        assert(s.subrange(0, 0) =~= pat);
    } else {
        lemma_first_match(s.drop_first(), pat);
        assert forall|j: int| 0 <= j implies match_at(s, pat, j + 1) == match_at(
            s.drop_first(),
            pat,
            j,
        ) by {
            lemma_match_at_shift(s, pat, j);
        }
        let r = first_match(s.drop_first(), pat);
        if r >= 0 {
            assert(match_at(s.drop_first(), pat, r));
            assert(match_at(s, pat, r + 1));
            assert forall|j: int| 0 <= j < r + 1 implies !match_at(s, pat, j) by {
                if j > 0 {
                    assert(!match_at(s.drop_first(), pat, j - 1));
                }
            }
        } else {
            assert forall|j: int| !match_at(s, pat, j) by {
                if j > 0 {
                    assert(!match_at(s.drop_first(), pat, j - 1));
                }
            }
        }
    }
}

/// `c` is a decimal digit.
pub open spec fn is_digit(c: char) -> bool {
    48 <= c as u32 <= 57
}

/// Every character of `s` is a decimal digit.
pub open spec fn all_digits(s: Seq<char>) -> bool {
    forall|i: int| 0 <= i < s.len() ==> is_digit(#[trigger] s[i])
}

/// The numeric value of a sequence of decimal digits, most significant first.
pub open spec fn digits_val(s: Seq<char>) -> nat
    decreases s.len(),
{
    if s.len() == 0 {
        0
    } else {
        digits_val(s.drop_last()) * 10 + (s.last() as u32 - 48) as nat
    }
}

/// What parsing `s` as an unsigned integer yields: the numeric value when `s`
/// is a non-empty, all-digit string whose value fits in `usize`, and nothing
/// otherwise.
pub open spec fn spec_parse_usize(s: Seq<char>) -> Option<usize> {
    if s.len() > 0 && all_digits(s) && digits_val(s) <= usize::MAX {
        Some(digits_val(s) as usize)
    } else {
        None
    }
}

/// A digit string's value only grows as more digits are appended.
proof fn lemma_digits_val_prefix(s: Seq<char>, i: int)
    requires
        0 <= i <= s.len(),
    ensures
        digits_val(s.take(i)) <= digits_val(s),
    decreases s.len() - i,
{
    if i < s.len() {
        lemma_digits_val_prefix(s, i + 1);
        assert(s.take(i + 1).drop_last() =~= s.take(i));
        assert(digits_val(s.take(i + 1)) == digits_val(s.take(i)) * 10 + (s.take(i + 1).last()
            as u32 - 48) as nat);
    } else {
        assert(s.take(i) =~= s);
    }
}

/// Locate the last occurrence of `c` in `s`.
pub fn rfind_char(s: &str, c: char) -> (r: Option<usize>)
    ensures
        match r {
            Some(i) => i == last_index_of(s@, c) && i < s@.len(),
            None => last_index_of(s@, c) == -1,
        },
{
    proof {
        lemma_last_index_of(s@, c);
    }
    let n = s.unicode_len();
    let mut i = n;
    while i > 0
        invariant
            i <= n,
            n == s@.len(),
            forall|j: int| i <= j < s@.len() ==> s@[j] != c,
            -1 <= last_index_of(s@, c) < s@.len(),
            last_index_of(s@, c) >= 0 ==> s@[last_index_of(s@, c)] == c,
            forall|j: int| last_index_of(s@, c) < j < s@.len() ==> s@[j] != c,
        decreases i,
    {
        let ch = s.get_char(i - 1);
        if ch == c {
            proof {
                // i - 1 bears c and everything after it does not, so it is the last index.
                assert(last_index_of(s@, c) >= i - 1);
                assert(last_index_of(s@, c) <= i - 1);
            }
            return Some(i - 1);
        }
        i = i - 1;
    }
    proof {
        assert(last_index_of(s@, c) == -1);
    }
    None
}

/// Whether `s` begins with `pat`.
pub fn has_prefix(s: &str, pat: &str) -> (r: bool)
    ensures
        r == (pat@.len() <= s@.len() && s@.subrange(0, pat@.len() as int) == pat@),
{
    let n = s.unicode_len();
    let m = pat.unicode_len();
    if m > n {
        return false;
    }
    let mut k: usize = 0;
    while k < m
        invariant
            k <= m,
            m == pat@.len(),
            n == s@.len(),
            m <= n,
            forall|t: int| 0 <= t < k ==> s@[t] == pat@[t],
        decreases m - k,
    {
        if s.get_char(k) != pat.get_char(k) {
            proof {
                assert(s@.subrange(0, pat@.len() as int)[k as int] != pat@[k as int]);
            }
            return false;
        }
        k = k + 1;
    }
    proof {
        assert(s@.subrange(0, pat@.len() as int) =~= pat@);
    }
    true
}

/// Locate the first occurrence of `pat` in `s`.
pub fn find_first(s: &str, pat: &str) -> (r: Option<usize>)
    requires
        pat@.len() >= 1,
    ensures
        match r {
            Some(i) => i == first_match(s@, pat@) && i + pat@.len() <= s@.len(),
            None => first_match(s@, pat@) == -1,
        },
{
    proof {
        lemma_first_match(s@, pat@);
    }
    let n = s.unicode_len();
    let m = pat.unicode_len();
    if m > n {
        return None;
    }
    let mut j: usize = 0;
    while j <= n - m
        invariant
            j <= n - m + 1,
            m == pat@.len(),
            n == s@.len(),
            1 <= m <= n,
            forall|t: int| 0 <= t < j ==> !match_at(s@, pat@, t),
            first_match(s@, pat@) >= 0 ==> match_at(s@, pat@, first_match(s@, pat@)),
            forall|t: int| 0 <= t < first_match(s@, pat@) ==> !match_at(s@, pat@, t),
            first_match(s@, pat@) == -1 ==> forall|t: int| !match_at(s@, pat@, t),
        decreases n - m - j + 1,
    {
        let mut k: usize = 0;
        let mut hit = true;
        while k < m
            invariant
                k <= m,
                j + m <= n,
                m == pat@.len(),
                n == s@.len(),
                hit ==> forall|t: int| 0 <= t < k ==> s@[j + t] == pat@[t],
                !hit ==> !match_at(s@, pat@, j as int),
            decreases m - k,
        {
            if s.get_char(j + k) != pat.get_char(k) {
                proof {
                    if match_at(s@, pat@, j as int) {
                        assert(s@.subrange(j as int, j + pat@.len() as int)[k as int] == pat@[
                            k as int]);
                    }
                }
                hit = false;
                k = m;
            } else {
                k = k + 1;
            }
        }
        if hit {
            proof {
                assert(s@.subrange(j as int, j + pat@.len() as int) =~= pat@);
                assert(match_at(s@, pat@, j as int));
                // Everything below j is no match, so j is the first.
                assert(first_match(s@, pat@) >= 0);
                assert(!(first_match(s@, pat@) < j) && !(first_match(s@, pat@) > j));
            }
            return Some(j);
        }
        j = j + 1;
    }
    proof {
        assert forall|t: int| !match_at(s@, pat@, t) by {
            if 0 <= t && t + pat@.len() <= s@.len() {
                assert(t < n - m + 1);
            }
        }
        assert(first_match(s@, pat@) == -1);
    }
    None
}

/// Parse `s` as an unsigned integer written in decimal digits.
pub fn parse_usize_digits(s: &str) -> (r: Option<usize>)
    ensures
        r == spec_parse_usize(s@),
{
    let n = s.unicode_len();
    if n == 0 {
        return None;
    }
    let mut acc: usize = 0;
    let mut i: usize = 0;
    while i < n
        invariant
            i <= n,
            n == s@.len(),
            n > 0,
            forall|t: int| 0 <= t < i ==> is_digit(#[trigger] s@[t]),
            acc == digits_val(s@.take(i as int)),
        decreases n - i,
    {
        let c = s.get_char(i);
        let code = c as u32;
        if code < 48 || code > 57 {
            proof {
                assert(!is_digit(s@[i as int]));
            }
            return None;
        }
        let d = (code - 48) as usize;
        proof {
            assert(s@.take(i + 1).drop_last() =~= s@.take(i as int));
            assert(digits_val(s@.take(i + 1)) == digits_val(s@.take(i as int)) * 10 + d);
        }
        if acc > (usize::MAX - d) / 10 {
            proof {
                // acc * 10 + d exceeds usize::MAX, so the full value does too.
                assert(acc * 10 + d > usize::MAX) by (nonlinear_arith)
                    requires
                        acc > (usize::MAX - d) / 10,
                        d <= usize::MAX,
                ;
                lemma_digits_val_prefix(s@, i + 1);
                assert(digits_val(s@) > usize::MAX);
            }
            return None;
        }
        proof {
            assert(acc * 10 + d <= usize::MAX) by (nonlinear_arith)
                requires
                    acc <= (usize::MAX - d) / 10,
                    d <= usize::MAX,
            ;
        }
        acc = acc * 10 + d;
        i = i + 1;
    }
    proof {
        assert(s@.take(n as int) =~= s@);
        assert(all_digits(s@));
    }
    Some(acc)
}

} // verus!
