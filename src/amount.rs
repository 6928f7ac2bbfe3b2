//! Booking amounts. An amount of hours is carried as a whole number of
//! hundredths of an hour, and written as a decimal with at most two digits
//! after the point (`4`, `0.25`, `1.5`).

use vstd::prelude::*;

verus! {

/// The smallest amount that can be booked: a quarter of an hour.
pub const MIN_AMOUNT: u64 = 25;

pub open spec fn is_digit(c: char) -> bool {
    '0' <= c && c <= '9'
}

pub open spec fn all_digits(s: Seq<char>) -> bool {
    forall|i: int| 0 <= i < s.len() ==> is_digit(#[trigger] s[i])
}

pub open spec fn digit_value(c: char) -> nat {
    (c as int - '0' as int) as nat
}

/// The number that a string of decimal digits denotes.
pub open spec fn digits_value(s: Seq<char>) -> nat
    decreases s.len(),
{
    if s.len() == 0 {
        0
    } else {
        10 * digits_value(s.drop_last()) + digit_value(s.last())
    }
}

/// The hundredths that a decimal denotes: a non-empty run of digits,
/// optionally followed by a point and one or two digits.
pub open spec fn decimal_hundredths(s: Seq<char>) -> Option<nat> {
    let n = s.len() as int;
    if n > 0 && all_digits(s) {
        Some(100 * digits_value(s))
    } else if n >= 3 && s[n - 2] == '.' && all_digits(s.subrange(0, n - 2)) && is_digit(s[n - 1]) {
        Some(100 * digits_value(s.subrange(0, n - 2)) + 10 * digit_value(s[n - 1]))
    } else if n >= 4 && s[n - 3] == '.' && all_digits(s.subrange(0, n - 3)) && all_digits(
        s.subrange(n - 2, n),
    ) {
        Some(100 * digits_value(s.subrange(0, n - 3)) + digits_value(s.subrange(n - 2, n)))
    } else {
        None
    }
}

/// The amount that `s` denotes, in hundredths of an hour, where it fits a `u64`.
pub open spec fn amount_of(s: Seq<char>) -> Option<nat> {
    match decimal_hundredths(s) {
        Some(v) => if v <= u64::MAX {
            Some(v)
        } else {
            None
        },
        None => None,
    }
}

proof fn lemma_digits_prefix(s: Seq<char>, k: int)
    requires
        0 <= k <= s.len(),
    ensures
        digits_value(s.subrange(0, k)) <= digits_value(s),
    decreases s.len() - k,
{
    if k == s.len() {
        assert(s.subrange(0, k) =~= s);
    } else {
        lemma_digits_prefix(s, k + 1);
        assert(s.subrange(0, k + 1).drop_last() =~= s.subrange(0, k));
    }
}

/// The value of the digits `s[lo..hi]`, where they are all digits and the
/// value fits a `u64`.
fn digits_in(s: &str, lo: usize, hi: usize) -> (r: Option<u64>)
    requires
        lo <= hi <= s@.len(),
    ensures
        match r {
            Some(v) => all_digits(s@.subrange(lo as int, hi as int)) && digits_value(
                s@.subrange(lo as int, hi as int),
            ) == v,
            None => !all_digits(s@.subrange(lo as int, hi as int)) || digits_value(
                s@.subrange(lo as int, hi as int),
            ) > u64::MAX,
        },
{
    let ghost whole = s@.subrange(lo as int, hi as int);
    let mut acc: u64 = 0;
    let mut i: usize = lo;
    while i < hi
        invariant
            lo <= i <= hi <= s@.len(),
            whole == s@.subrange(lo as int, hi as int),
            all_digits(s@.subrange(lo as int, i as int)),
            digits_value(s@.subrange(lo as int, i as int)) == acc,
        decreases hi - i,
    {
        let c = s.get_char(i);
        if !('0' <= c && c <= '9') {
            assert(whole[i - lo] == c);
            return None;
        }
        let d = (c as u32 - '0' as u32) as u64;
        let next = acc as u128 * 10 + d as u128;
        proof {
            let p = s@.subrange(lo as int, i + 1);
            assert(p.drop_last() =~= s@.subrange(lo as int, i as int));
            assert(p =~= whole.subrange(0, i + 1 - lo));
            lemma_digits_prefix(whole, i + 1 - lo);
        }
        if next > u64::MAX as u128 {
            return None;
        }
        acc = next as u64;
        i += 1;
        assert(all_digits(s@.subrange(lo as int, i as int))) by {
            assert forall|j: int| 0 <= j < i - lo implies is_digit(
                #[trigger] s@.subrange(lo as int, i as int)[j],
            ) by {
                if j < i - 1 - lo {
                    assert(s@.subrange(lo as int, i - 1)[j] == s@[lo + j]);
                }
            }
        }
    }
    assert(s@.subrange(lo as int, i as int) =~= whole);
    Some(acc)
}

/// Reads a decimal amount of hours, in hundredths of an hour.
/// `None` where `s` is no such decimal or its value does not fit a `u64`.
pub fn parse_amount(s: &str) -> (r: Option<u64>)
    ensures
        match r {
            Some(v) => amount_of(s@) == Some(v as nat),
            None => amount_of(s@).is_none(),
        },
{
    let n = s.unicode_len();
    let ghost q = s@;
    if n >= 4 && s.get_char(n - 3) == '.' {
        assert(!all_digits(q));
        assert(!all_digits(q.subrange(0, n - 2))) by {
            assert(q.subrange(0, n - 2)[n - 3] == q[n - 3]);
        }
        let whole = digits_in(s, 0, n - 3);
        let frac = digits_in(s, n - 2, n);
        match (whole, frac) {
            (Some(w), Some(f)) => {
                let v = w as u128 * 100 + f as u128;
                if v > u64::MAX as u128 {
                    None
                } else {
                    Some(v as u64)
                }
            },
            _ => {
                proof {
                    if all_digits(q.subrange(0, n - 3)) && all_digits(q.subrange(n - 2, n as int)) {
                        if whole.is_none() {
                            assert(100 * digits_value(q.subrange(0, n - 3)) > u64::MAX);
                        } else {
                            assert(digits_value(q.subrange(n - 2, n as int)) > u64::MAX);
                        }
                    }
                }
                None
            },
        }
    } else if n >= 3 && s.get_char(n - 2) == '.' {
        assert(!all_digits(q));
        let whole = digits_in(s, 0, n - 2);
        let last = s.get_char(n - 1);
        if !('0' <= last && last <= '9') {
            return None;
        }
        match whole {
            Some(w) => {
                let v = w as u128 * 100 + 10 * (last as u32 - '0' as u32) as u128;
                if v > u64::MAX as u128 {
                    None
                } else {
                    Some(v as u64)
                }
            },
            None => None,
        }
    } else if n == 0 {
        None
    } else {
        match digits_in(s, 0, n) {
            Some(w) => {
                assert(q.subrange(0, n as int) =~= q);
                let v = w as u128 * 100;
                if v > u64::MAX as u128 {
                    None
                } else {
                    Some(v as u64)
                }
            },
            None => {
                assert(q.subrange(0, n as int) =~= q);
                None
            },
        }
    }
}

} // verus!
