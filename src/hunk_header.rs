//! Reading the start lines out of a textual hunk header such as
//! `@@ -12,5 +14,6 @@`, for diffs that carry no structured hunk data.

use vstd::prelude::*;
use crate::text::{is_white_space, is_white_space_char};

verus! {

/// The bounds `(start, end)` of the white-space separated words of `s`, in order.
pub open spec fn word_bounds(s: Seq<char>) -> Seq<(int, int)>
    decreases s.len(),
{
    if s.len() == 0 {
        Seq::empty()
    } else {
        let w = word_bounds(s.drop_last());
        let n = s.len() as int;
        if is_white_space(s.last()) {
            w
        } else if n >= 2 && !is_white_space(s[n - 2]) {
            w.update(w.len() - 1, (w.last().0, n))
        } else {
            w.push((n - 1, n))
        }
    }
}

/// The white-space separated words of `s`, as `str::split_whitespace` yields them.
pub open spec fn words(s: Seq<char>) -> Seq<Seq<char>> {
    word_bounds(s).map_values(|b: (int, int)| s.subrange(b.0, b.1))
}

pub open spec fn is_digit(c: char) -> bool {
    '0' <= c && c <= '9'
}

/// The value of a string of decimal digits.
pub open spec fn digits_value(s: Seq<char>) -> int
    decreases s.len(),
{
    if s.len() == 0 {
        0
    } else {
        digits_value(s.drop_last()) * 10 + (s.last() as int - '0' as int)
    }
}

/// What `str::parse::<i32>` gives: an optional sign, then at least one decimal
/// digit, with a value in range.
pub open spec fn parse_i32(s: Seq<char>) -> Option<int> {
    let neg = s.len() > 0 && s[0] == '-';
    let body = unsigned_part(s);
    let v = if neg {
        -digits_value(body)
    } else {
        digits_value(body)
    };
    if body.len() == 0 || !(forall|i: int| 0 <= i < body.len() ==> is_digit(#[trigger] body[i])) {
        None
    } else if i32::MIN <= v <= i32::MAX {
        Some(v)
    } else {
        None
    }
}

/// `s` less a leading sign.
pub open spec fn unsigned_part(s: Seq<char>) -> Seq<char> {
    if s.len() > 0 && (s[0] == '-' || s[0] == '+') {
        s.drop_first()
    } else {
        s
    }
}

/// The text of `s` before its first comma (all of `s` where it has none).
pub open spec fn before_comma(s: Seq<char>) -> Seq<char>
    decreases s.len(),
{
    if s.len() == 0 {
        s
    } else if s[0] == ',' {
        Seq::empty()
    } else {
        seq![s[0]] + before_comma(s.drop_first())
    }
}

/// The start line that a range word such as `-12,5` names, where `sign`
/// begins it and the number parses.
pub open spec fn range_start(word: Seq<char>, sign: char) -> Option<int> {
    if word.len() > 0 && word[0] == sign {
        parse_i32(before_comma(word.drop_first()))
    } else {
        None
    }
}

/// The old and new start lines of a textual hunk header: read from its second
/// and third words, where it has at least three.
pub open spec fn header_starts(s: Seq<char>) -> (Option<int>, Option<int>) {
    let w = words(s);
    if w.len() >= 3 {
        (range_start(w[1], '-'), range_start(w[2], '+'))
    } else {
        (None, None)
    }
}

proof fn lemma_word_bounds(s: Seq<char>)
    ensures
        forall|k: int|
            0 <= k < word_bounds(s).len() ==> 0 <= #[trigger] word_bounds(s)[k].0 < word_bounds(
                s,
            )[k].1 <= s.len(),
        s.len() > 0 && !is_white_space(s.last()) ==> word_bounds(s).len() > 0 && word_bounds(
            s,
        ).last().1 == s.len(),
    decreases s.len(),
{
    if s.len() > 0 {
        let d = s.drop_last();
        lemma_word_bounds(d);
        let w = word_bounds(d);
        let n = s.len() as int;
        if is_white_space(s.last()) {
        } else if n >= 2 && !is_white_space(s[n - 2]) {
            assert(d.last() == s[n - 2]);
            let u = w.update(w.len() - 1, (w.last().0, n));
            assert(word_bounds(s) == u);
            assert forall|k: int| 0 <= k < u.len() implies 0 <= #[trigger] u[k].0 < u[k].1 <= n by {
                if k < u.len() - 1 {
                    assert(u[k] == w[k]);
                }
            }
        } else {
            let u = w.push((n - 1, n));
            assert(word_bounds(s) == u);
            assert forall|k: int| 0 <= k < u.len() implies 0 <= #[trigger] u[k].0 < u[k].1 <= n by {
                if k < u.len() - 1 {
                    assert(u[k] == w[k]);
                }
            }
        }
    }
}

/// The bounds of the words of `s`.
fn word_bounds_of(s: &str) -> (r: Vec<(usize, usize)>)
    ensures
        r@.len() == word_bounds(s@).len(),
        forall|k: int|
            0 <= k < r@.len() ==> (#[trigger] r@[k]).0 as int == word_bounds(s@)[k].0 && r@[k].1
                as int == word_bounds(s@)[k].1,
{
    let n = s.unicode_len();
    let mut r: Vec<(usize, usize)> = Vec::new();
    let mut i: usize = 0;
    let mut prev_white = true;
    while i < n
        invariant
            i <= n == s@.len(),
            prev_white == (i == 0 || is_white_space(s@[i - 1])),
            !prev_white ==> r@.len() > 0 && r@.last().1 == i,
            r@.len() == word_bounds(s@.subrange(0, i as int)).len(),
            forall|k: int|
                0 <= k < r@.len() ==> (#[trigger] r@[k]).0 as int == word_bounds(
                    s@.subrange(0, i as int),
                )[k].0 && r@[k].1 as int == word_bounds(s@.subrange(0, i as int))[k].1,
        decreases n - i,
    {
        let c = s.get_char(i);
        let ghost t = s@.subrange(0, i + 1);
        proof {
            assert(t.drop_last() =~= s@.subrange(0, i as int));
            lemma_word_bounds(s@.subrange(0, i as int));
        }
        proof {
            lemma_word_bounds(t);
            if i > 0 {
                assert(s@.subrange(0, i as int).last() == s@[i - 1]);
                assert(t[i - 1] == s@[i - 1]);
            }
        }
        if is_white_space_char(c) {
            prev_white = true;
        } else if !prev_white {
            let last = r.len() - 1;
            let start = r[last].0;
            r.set(last, (start, i + 1));
            prev_white = false;
        } else {
            r.push((i, i + 1));
            prev_white = false;
        }
        i = i + 1;
    }
    assert(s@.subrange(0, n as int) =~= s@);
    r
}

proof fn lemma_digits_value_grows(s: Seq<char>, k: int)
    requires
        0 <= k <= s.len(),
        forall|i: int| 0 <= i < s.len() ==> is_digit(#[trigger] s[i]),
    ensures
        digits_value(s) >= digits_value(s.subrange(0, k)) >= 0,
    decreases s.len(),
{
    if s.len() > 0 {
        if k == s.len() {
            assert(s.subrange(0, k) =~= s);
            lemma_digits_value_grows(s.drop_last(), 0);
        } else {
            lemma_digits_value_grows(s.drop_last(), k);
            assert(s.drop_last().subrange(0, k) =~= s.subrange(0, k));
        }
    }
}

/// Parses a decimal integer as `str::parse::<i32>` does.
pub fn parse_i32_of(s: &str) -> (r: Option<i32>)
    ensures
        match r {
            Some(v) => parse_i32(s@) == Some(v as int),
            None => parse_i32(s@) is None,
        },
{
    let n = s.unicode_len();
    let mut start: usize = 0;
    let mut neg = false;
    if n > 0 && (s.get_char(0) == '-' || s.get_char(0) == '+') {
        neg = s.get_char(0) == '-';
        start = 1;
    }
    let ghost body = if start == 1 {
        s@.drop_first()
    } else {
        s@
    };
    assert(body =~= s@.subrange(start as int, n as int));
    assert(body == unsigned_part(s@));
    assert(neg == (s@.len() > 0 && s@[0] == '-'));
    if start == n {
        return None;
    }
    let mut value: i64 = 0;
    let mut i: usize = start;
    while i < n
        invariant
            start <= i <= n == s@.len(),
            body == s@.subrange(start as int, n as int),
            body == unsigned_part(s@),
            neg == (s@.len() > 0 && s@[0] == '-'),
            forall|t: int| 0 <= t < i - start ==> is_digit(#[trigger] body[t]),
            value as int == digits_value(body.subrange(0, i - start)),
            0 <= value <= 0x8000_0000,
        decreases n - i,
    {
        let c = s.get_char(i);
        assert(body[i - start] == c);
        if !('0' <= c && c <= '9') {
            assert(!is_digit(body[i - start]));
            assert(!(forall|t: int| 0 <= t < body.len() ==> is_digit(#[trigger] body[t])));
            return None;
        }
        assert(body.subrange(0, i + 1 - start).drop_last() =~= body.subrange(0, i - start));
        let next = value * 10 + (c as u32 - '0' as u32) as i64;
        assert(next == digits_value(body.subrange(0, i + 1 - start)));
        i = i + 1;
        if next > 0x8000_0000 {
            proof {
                if forall|t: int| 0 <= t < body.len() ==> is_digit(#[trigger] body[t]) {
                    lemma_digits_value_grows(body, i - start);
                }
            }
            return None;
        }
        value = next;
    }
    assert(body.subrange(0, body.len() as int) =~= body);
    let v: i64 = if neg {
        -value
    } else {
        value
    };
    if v < -0x8000_0000 || v > 0x7fff_ffff {
        None
    } else {
        Some(v as i32)
    }
}

proof fn lemma_before_comma(s: Seq<char>, k: int)
    requires
        0 <= k <= s.len(),
        forall|t: int| 0 <= t < k ==> s[t] != ',',
        k == s.len() || s[k] == ',',
    ensures
        before_comma(s) == s.subrange(0, k),
    decreases k,
{
    if k == 0 {
        assert(s.subrange(0, 0) =~= Seq::<char>::empty());
    } else {
        let d = s.drop_first();
        lemma_before_comma(d, k - 1);
        assert(s.subrange(0, k) =~= seq![s[0]] + d.subrange(0, k - 1));
    }
}

/// The start line named by a range word such as `-12,5`.
fn range_start_of(word: &str, sign: char) -> (r: Option<i32>)
    ensures
        match r {
            Some(v) => range_start(word@, sign) == Some(v as int),
            None => range_start(word@, sign) is None,
        },
{
    let n = word.unicode_len();
    if n == 0 || word.get_char(0) != sign {
        return None;
    }
    let rest = word.substring_char(1, n);
    assert(rest@ =~= word@.drop_first());
    let m = rest.unicode_len();
    let mut k: usize = 0;
    while k < m && rest.get_char(k) != ','
        invariant
            k <= m == rest@.len(),
            forall|t: int| 0 <= t < k ==> rest@[t] != ',',
        decreases m - k,
    {
        k = k + 1;
    }
    proof {
        lemma_before_comma(rest@, k as int);
    }
    parse_i32_of(rest.substring_char(0, k))
}

/// The old and new start lines of a textual hunk header.
pub fn header_starts_of(s: &str) -> (r: (Option<i32>, Option<i32>))
    ensures
        match r.0 {
            Some(v) => header_starts(s@).0 == Some(v as int),
            None => header_starts(s@).0 is None,
        },
        match r.1 {
            Some(v) => header_starts(s@).1 == Some(v as int),
            None => header_starts(s@).1 is None,
        },
{
    let b = word_bounds_of(s);
    proof {
        lemma_word_bounds(s@);
    }
    if b.len() < 3 {
        return (None, None);
    }
    let w1 = s.substring_char(b[1].0, b[1].1);
    let w2 = s.substring_char(b[2].0, b[2].1);
    assert(words(s@)[1] == w1@);
    assert(words(s@)[2] == w2@);
    (range_start_of(w1, '-'), range_start_of(w2, '+'))
}

} // verus!
