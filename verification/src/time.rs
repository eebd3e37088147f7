//! The time-token parser: interprets a single token as a 24-hour clock
//! time written `H:M`, hour and minute unpadded decimal numbers.

use crate::digits::{
    all_digits, digits_val, is_digit_char, lemma_digits_val_nonneg, lemma_digits_val_prefix_le,
    lemma_nat_chars_val, nat_chars,
};
use vstd::prelude::*;

verus! {

/// A validated 24-hour clock time: an hour and a minute, valid together.
#[derive(Debug, Clone, Copy, PartialEq, Eq, Structural)]
pub struct TimeValue {
    pub hr: u8,
    pub min: u8,
}

impl TimeValue {
    /// Hour on a 24-hour clock, minute within the hour.
    pub open spec fn valid(self) -> bool {
        self.hr <= 23 && self.min <= 59
    }
}

/// `i` is the position of the only colon in `s`.
pub open spec fn splits_at(s: Seq<char>, i: int) -> bool {
    &&& 0 <= i < s.len()
    &&& s[i] == ':'
    &&& forall|j: int| 0 <= j < s.len() && #[trigger] s[j] == ':' ==> j == i
}

/// The time denoted when `s` is split at position `i`: both segments must
/// be non-empty digit runs, the hour at most 23, the minute at most 59.
pub open spec fn time_at(s: Seq<char>, i: int) -> Option<TimeValue> {
    let pre = s.take(i);
    let post = s.subrange(i + 1, s.len() as int);
    if pre.len() > 0 && post.len() > 0 && all_digits(pre) && all_digits(post) && digits_val(pre)
        <= 23 && digits_val(post) <= 59 {
        Some(TimeValue { hr: digits_val(pre) as u8, min: digits_val(post) as u8 })
    } else {
        None
    }
}

/// The time a token denotes, if any: the token must contain exactly one
/// colon, and both segments around it must be in-range digit runs.
pub open spec fn parse_time(s: Seq<char>) -> Option<TimeValue> {
    if exists|i: int| splits_at(s, i) {
        time_at(s, choose|i: int| splits_at(s, i))
    } else {
        None
    }
}

/// The clock-time token shape: digits, one colon, digits, both parts in range.
pub open spec fn is_clock_time(s: Seq<char>) -> bool {
    exists|i: int| splits_at(s, i) && time_at(s, i) is Some
}

/// A token has at most one split position.
proof fn lemma_splits_at_unique(s: Seq<char>, i: int, j: int)
    requires
        splits_at(s, i),
        splits_at(s, j),
    ensures
        i == j,
{
    assert(s[j] == ':');
}

/// Law: a token denotes a time exactly when it has the clock-time shape —
/// on every other string the parser reports absence.
pub proof fn lemma_parse_time_iff(s: Seq<char>)
    ensures
        parse_time(s) is Some <==> is_clock_time(s),
{
    if parse_time(s) is Some {
        let i = choose|i: int| splits_at(s, i);
        assert(splits_at(s, i) && time_at(s, i) is Some);
    }
    if is_clock_time(s) {
        let j = choose|j: int| splits_at(s, j) && time_at(s, j) is Some;
        assert(splits_at(s, j));
        let i = choose|i: int| splits_at(s, i);
        lemma_splits_at_unique(s, i, j);
    }
}

/// Law: a well-formed split whose hour or minute is out of range still
/// parses to no time.
pub proof fn lemma_out_of_range_rejected(s: Seq<char>, i: int)
    requires
        splits_at(s, i),
        digits_val(s.take(i)) > 23 || digits_val(s.subrange(i + 1, s.len() as int)) > 59,
    ensures
        parse_time(s) is None,
{
    let k = choose|k: int| splits_at(s, k);
    lemma_splits_at_unique(s, k, i);
}

/// Law: writing an in-range hour and minute as `H:M` (unpadded) and
/// parsing the result yields the same time back.
pub proof fn lemma_time_round_trip(h: int, m: int)
    requires
        0 <= h <= 23,
        0 <= m <= 59,
    ensures
        parse_time(nat_chars(h) + seq![':'] + nat_chars(m)) == Some(
            TimeValue { hr: h as u8, min: m as u8 },
        ),
{
    let hs = nat_chars(h);
    let ms = nat_chars(m);
    lemma_nat_chars_val(h);
    lemma_nat_chars_val(m);
    let s = hs + seq![':'] + ms;
    let i = hs.len() as int;
    assert(s[i] == ':');
    assert forall|j: int| 0 <= j < s.len() && #[trigger] s[j] == ':' implies j == i by {
        if j < i {
            assert(s[j] == hs[j]);
            assert(is_digit_char(hs[j]));
        } else if j > i {
            assert(s[j] == ms[j - i - 1]);
            assert(is_digit_char(ms[j - i - 1]));
        }
    }
    assert(splits_at(s, i));
    let k = choose|k: int| splits_at(s, k);
    lemma_splits_at_unique(s, k, i);
    assert(s.take(i) =~= hs);
    assert(s.subrange(i + 1, s.len() as int) =~= ms);
    assert(time_at(s, i) == Some(TimeValue { hr: h as u8, min: m as u8 }));
}

/// Reads the digit run `s[start..end]` as a number, refusing an empty or
/// non-digit segment and any value above `max`.
fn parse_digits_bounded(s: &str, start: usize, end: usize, max: u32) -> (r: Option<u32>)
    requires
        start <= end <= s@.len(),
        max <= 59,
    ensures
        ({
            let seg = s@.subrange(start as int, end as int);
            match r {
                Some(v) => seg.len() > 0 && all_digits(seg) && digits_val(seg) == v as int && v
                    <= max,
                None => !(seg.len() > 0 && all_digits(seg) && digits_val(seg) <= max),
            }
        }),
{
    let ghost seg = s@.subrange(start as int, end as int);
    if start == end {
        return None;
    }
    let mut acc: u32 = 0;
    let mut j: usize = start;
    while j < end
        invariant
            start <= j <= end <= s@.len(),
            max <= 59,
            acc <= max,
            seg == s@.subrange(start as int, end as int),
            all_digits(s@.subrange(start as int, j as int)),
            digits_val(s@.subrange(start as int, j as int)) == acc as int,
        decreases end - j,
    {
        let c = s.get_char(j);
        let v = c as u32;
        if v < 48 || v > 57 {
            proof {
                assert(seg[j - start] == s@[j as int]);
                assert(!is_digit_char(seg[j - start]));
            }
            return None;
        }
        let d = v - 48;
        proof {
            let prev = s@.subrange(start as int, j as int);
            let cur = s@.subrange(start as int, j + 1 as int);
            assert(cur.drop_last() =~= prev);
            assert(cur.last() == s@[j as int]);
            assert(all_digits(cur));
            assert(digits_val(cur) == 10 * (acc as int) + d as int);
        }
        acc = acc * 10 + d;
        if acc > max {
            proof {
                if seg.len() > 0 && all_digits(seg) && digits_val(seg) <= max {
                    assert(seg.take(j + 1 - start as int) =~= s@.subrange(
                        start as int,
                        j + 1 as int,
                    ));
                    lemma_digits_val_prefix_le(seg, j + 1 - start as int);
                }
            }
            return None;
        }
        j = j + 1;
    }
    proof {
        assert(s@.subrange(start as int, j as int) =~= seg);
    }
    Some(acc)
}

/// Parses `H:M` into an hour and a minute; any malformed or out-of-range
/// token yields `None`. Total over all strings, and exact: the result is
/// `parse_time` of the token's characters.
pub fn hm(time_str: String) -> (r: Option<TimeValue>)
    ensures
        r == parse_time(time_str@),
        r matches Some(t) ==> t.valid(),
{
    let s = time_str.as_str();
    let n = s.unicode_len();
    let mut colon: usize = 0;
    let mut found = false;
    let mut i: usize = 0;
    while i < n
        invariant
            i <= n,
            n == s@.len(),
            s@ == time_str@,
            found ==> colon < i && s@[colon as int] == ':',
            found ==> forall|j: int| 0 <= j < i && #[trigger] s@[j] == ':' ==> j == colon,
            !found ==> forall|j: int| 0 <= j < i ==> #[trigger] s@[j] != ':',
        decreases n - i,
    {
        let c = s.get_char(i);
        if c == ':' {
            if found {
                proof {
                    assert forall|k: int| #![trigger splits_at(s@, k)] !splits_at(s@, k) by {
                        if splits_at(s@, k) {
                            assert(s@[colon as int] == ':');
                            assert(s@[i as int] == ':');
                            assert(k == colon as int);
                            assert(k == i as int);
                        }
                    }
                }
                return None;
            }
            colon = i;
            found = true;
        }
        i = i + 1;
    }
    if !found {
        proof {
            assert forall|k: int| #![trigger splits_at(s@, k)] !splits_at(s@, k) by {
                if splits_at(s@, k) {
                    assert(s@[k] == ':');
                }
            }
        }
        return None;
    }
    proof {
        assert(splits_at(s@, colon as int));
        let k = choose|k: int| splits_at(s@, k);
        lemma_splits_at_unique(s@, k, colon as int);
    }
    let hr = parse_digits_bounded(s, 0, colon, 23);
    let mn = parse_digits_bounded(s, colon + 1, n, 59);
    proof {
        let pre = s@.take(colon as int);
        let post = s@.subrange(colon + 1 as int, s@.len() as int);
        assert(pre =~= s@.subrange(0, colon as int));
        if all_digits(pre) {
            lemma_digits_val_nonneg(pre);
        }
        if all_digits(post) {
            lemma_digits_val_nonneg(post);
        }
    }
    match (hr, mn) {
        (Some(h), Some(m)) => Some(TimeValue { hr: h as u8, min: m as u8 }),
        _ => None,
    }
}

} // verus!
