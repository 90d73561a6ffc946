//! The PID record: the decimal PID of the supervised child, as text.

use crate::text::{
    chars_of, decimal, decimal_text, digit_char, lemma_trimmed_padding, trim_bounds, trimmed,
};
use vstd::prelude::*;

verus! {

/// Whether `c` is one of `0` to `9`.
pub open spec fn is_digit(c: char) -> bool {
    '0' <= c <= '9'
}

/// Whether `s` holds decimal digits only.
pub open spec fn all_digits(s: Seq<char>) -> bool {
    forall|i: int| 0 <= i < s.len() ==> is_digit(#[trigger] s[i])
}

/// The number that the decimal digits `s` write.
pub open spec fn digits_value(s: Seq<char>) -> int
    decreases s.len(),
{
    if s.len() == 0 {
        0
    } else {
        digits_value(s.drop_last()) * 10 + (s.last() as int - '0' as int)
    }
}

/// The digits of a record's trimmed text, without a leading `+`.
pub open spec fn record_digits(text: Seq<char>) -> Seq<char> {
    let t = trimmed(text);
    if t.len() > 0 && t[0] == '+' {
        t.drop_first()
    } else {
        t
    }
}

/// The PID that a record's text names: a decimal number from 1 to
/// 2147483647, with white space allowed around it and `+` before it.
/// Anything else names no process.
pub open spec fn pid_of(text: Seq<char>) -> Option<i32> {
    let d = record_digits(text);
    if d.len() > 0 && all_digits(d) && 1 <= digits_value(d) <= i32::MAX {
        Some(digits_value(d) as i32)
    } else {
        None
    }
}

/// Digits only ever add to the number written so far.
pub proof fn lemma_digits_value_grows(s: Seq<char>, k: int)
    requires
        all_digits(s),
        0 <= k <= s.len(),
    ensures
        0 <= digits_value(s.subrange(0, k)) <= digits_value(s),
    decreases s.len() - k,
{
    if k == s.len() {
        assert(s.subrange(0, k) =~= s);
        lemma_digits_value_nonneg(s);
    } else {
        lemma_digits_value_grows(s, k + 1);
        let longer = s.subrange(0, k + 1);
        assert(longer.drop_last() =~= s.subrange(0, k));
        assert(is_digit(s[k]));
        assert(longer.last() == s[k]);
        lemma_digits_value_nonneg(s.subrange(0, k));
    }
}

/// The number written by digits is never negative.
pub proof fn lemma_digits_value_nonneg(s: Seq<char>)
    requires
        all_digits(s),
    ensures
        0 <= digits_value(s),
    decreases s.len(),
{
    if s.len() > 0 {
        assert(is_digit(s[s.len() - 1]));
        lemma_digits_value_nonneg(s.drop_last());
    }
}

/// Reads the PID out of a record's text.
pub fn parse_pid(text: &str) -> (pid: Option<i32>)
    ensures
        pid == pid_of(text@),
{
    let v = chars_of(text);
    let (lo, hi) = trim_bounds(&v, 0, v.len());
    assert(v@.subrange(0, v@.len() as int) =~= v@);
    let ghost t = v@.subrange(lo as int, hi as int);
    let start: usize = if lo < hi && v[lo] == '+' {
        lo + 1
    } else {
        lo
    };
    let ghost d = v@.subrange(start as int, hi as int);
    assert(d =~= record_digits(text@));
    if start == hi {
        return None;
    }
    let mut acc: u32 = 0;
    let mut i: usize = start;
    while i < hi
        invariant
            start <= i <= hi <= v@.len(),
            d == v@.subrange(start as int, hi as int),
            d == record_digits(text@),
            all_digits(d.subrange(0, i - start)),
            acc == digits_value(d.subrange(0, i - start)),
            acc <= i32::MAX,
        decreases hi - i,
    {
        let c = v[i];
        let ghost seen = d.subrange(0, i - start);
        let ghost more = d.subrange(0, i - start + 1);
        proof {
            assert(more.drop_last() =~= seen);
            assert(more.last() == c);
            assert(d[i - start] == c);
        }
        if !('0' <= c && c <= '9') {
            return None;
        }
        let digit: u32 = c as u32 - '0' as u32;
        proof {
            assert forall|k: int| 0 <= k < more.len() implies is_digit(#[trigger] more[k]) by {
                if k < seen.len() {
                    assert(more[k] == seen[k]);
                }
            }
        }
        if acc > 214748364 || (acc == 214748364 && digit > 7) {
            proof {
                assert(digits_value(more) > i32::MAX);
                if all_digits(d) {
                    lemma_digits_value_grows(d, i - start + 1);
                }
            }
            return None;
        }
        acc = acc * 10 + digit;
        i = i + 1;
    }
    assert(d.subrange(0, hi - start) =~= d);
    if acc == 0 {
        None
    } else {
        Some(acc as i32)
    }
}

/// The text of the record for the child `pid`: its decimal writing.
pub fn format_pid(pid: u32) -> (text: String)
    ensures
        text@ == decimal(pid as nat),
{
    decimal_text(pid as u64)
}

/// A decimal writing is made of digits and reads back as the number
/// written.
pub proof fn lemma_decimal_reads_back(n: nat)
    ensures
        decimal(n).len() > 0,
        all_digits(decimal(n)),
        digits_value(decimal(n)) == n,
    decreases n,
{
    if n < 10 {
        let s = seq![digit_char(n)];
        assert(s.drop_last() =~= Seq::<char>::empty());
        assert(digits_value(s.drop_last()) == 0);
        assert(s.last() == digit_char(n));
        assert(digit_char(n) as int - '0' as int == n);
    } else {
        lemma_decimal_reads_back(n / 10);
        let head = decimal(n / 10);
        let s = head.push(digit_char(n % 10));
        assert(s.drop_last() =~= head);
        assert(s.last() == digit_char(n % 10));
        assert(digit_char(n % 10) as int - '0' as int == n % 10);
        assert forall|i: int| 0 <= i < s.len() implies is_digit(#[trigger] s[i]) by {
            if i < head.len() {
                assert(s[i] == head[i]);
            }
        }
    }
}

/// What the supervisor writes, the stop command reads: the record written
/// for a PID names that PID.
pub proof fn lemma_record_round_trip(pid: u32)
    requires
        1 <= pid <= i32::MAX,
    ensures
        pid_of(decimal(pid as nat)) == Some(pid as i32),
{
    let s = decimal(pid as nat);
    lemma_decimal_reads_back(pid as nat);
    assert(is_digit(s[0]));
    assert(is_digit(s[s.len() - 1]));
    assert(Seq::<char>::empty() + s + Seq::<char>::empty() =~= s);
    lemma_trimmed_padding(Seq::empty(), s, Seq::empty());
}

} // verus!
