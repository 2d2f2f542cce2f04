//! The size of the worker pool.
//!
//! The pool has a fixed number of workers. An explicit count is taken when it
//! reads as a positive decimal number; in every other case the pool gets one
//! worker for each processing unit of the machine. A count that cannot be
//! read is never an error.

use vstd::prelude::*;
use vstd::string::*;

verus! {

/// Whether the character is one of `0` to `9`.
pub open spec fn is_digit(c: char) -> bool {
    '0' <= c && c <= '9'
}

/// The number that a digit stands for.
pub open spec fn digit_value(c: char) -> nat {
    (c as int - '0' as int) as nat
}

/// Whether the text is made of digits alone.
pub open spec fn all_digits(text: Seq<char>) -> bool {
    forall|i: int| 0 <= i < text.len() ==> is_digit(#[trigger] text[i])
}

/// The number that a text of digits stands for, read in base ten.
pub open spec fn digits_value(digits: Seq<char>) -> nat
    decreases digits.len(),
{
    if digits.len() == 0 {
        0
    } else {
        digits_value(digits.drop_last()) * 10 + digit_value(digits.last())
    }
}

/// The digits of a count: the text itself, or what follows a single leading
/// `+`.
pub open spec fn count_digits(text: Seq<char>) -> Seq<char> {
    if text.len() > 0 && text[0] == '+' {
        text.drop_first()
    } else {
        text
    }
}

/// The count that a text stands for: one or more digits, with or without a
/// `+` before them, and a value that a `usize` can hold. No other text stands
/// for a count.
pub open spec fn count_of(text: Seq<char>) -> Option<usize> {
    let digits = count_digits(text);
    if digits.len() > 0 && all_digits(digits) && digits_value(digits) <= usize::MAX {
        Some(digits_value(digits) as usize)
    } else {
        None
    }
}

/// The size of the pool: the explicit count where it is there, can be read
/// and is positive, in every other case the number of processing units.
pub open spec fn capacity_for(explicit: Option<Seq<char>>, units: usize) -> usize {
    match explicit {
        Some(text) => match count_of(text) {
            Some(count) => if count > 0 {
                count
            } else {
                units
            },
            None => units,
        },
        None => units,
    }
}

/// The text of an argument that may be missing.
pub open spec fn text_of(argument: Option<String>) -> Option<Seq<char>> {
    match argument {
        Some(text) => Some(text@),
        None => None,
    }
}

/// More digits never make a smaller number.
pub proof fn lemma_digits_value_grows(digits: Seq<char>, n: int)
    requires
        0 <= n <= digits.len(),
    ensures
        digits_value(digits.take(n)) <= digits_value(digits),
    decreases digits.len(),
{
    if n == digits.len() {
        assert(digits.take(n) =~= digits);
    } else {
        lemma_digits_value_grows(digits.drop_last(), n);
        assert(digits.drop_last().take(n) =~= digits.take(n));
    }
}

/// Reads a count. Gives nothing for a text that is no count, or whose value
/// is too large for a `usize`.
pub fn parse_count(text: &str) -> (count: Option<usize>)
    ensures
        count == count_of(text@),
{
    let len = text.unicode_len();
    let start: usize = if len > 0 && text.get_char(0) == '+' {
        1
    } else {
        0
    };
    if start == len {
        return None;
    }
    let ghost digits = count_digits(text@);
    let mut value: usize = 0;
    let mut i: usize = start;
    while i < len
        invariant
            start <= i <= len,
            start <= 1,
            len == text@.len(),
            digits == count_digits(text@),
            digits.len() == len - start,
            forall|k: int| 0 <= k < digits.len() ==> digits[k] == text@[k + start],
            all_digits(digits.take(i - start)),
            value == digits_value(digits.take(i - start)),
        decreases len - i,
    {
        let c = text.get_char(i);
        let ghost seen = digits.take(i - start + 1);
        proof {
            assert(seen.drop_last() =~= digits.take(i - start));
            assert(seen.last() == c);
        }
        if !(c >= '0' && c <= '9') {
            assert(!is_digit(digits[i - start]));
            return None;
        }
        let digit: usize = (c as u32 - '0' as u32) as usize;
        assert(digit == digit_value(c));
        assert(all_digits(seen)) by {
            assert forall|k: int| 0 <= k < seen.len() implies is_digit(#[trigger] seen[k]) by {
                if k < seen.len() - 1 {
                    assert(seen[k] == digits.take(i - start)[k]);
                }
            }
        }
        let next = match value.checked_mul(10) {
            Some(tens) => tens.checked_add(digit),
            None => None,
        };
        match next {
            Some(sum) => {
                value = sum;
            },
            None => {
                proof {
                    lemma_digits_value_grows(digits, i - start + 1);
                }
                return None;
            },
        }
        i += 1;
    }
    proof {
        assert(digits.take(i - start) =~= digits);
    }
    Some(value)
}

/// The size of the pool for an explicit count, which may be missing, on a
/// machine with the given number of processing units.
pub fn resolve_capacity(explicit: &Option<String>, units: usize) -> (capacity: usize)
    ensures
        capacity == capacity_for(text_of(*explicit), units),
{
    match explicit {
        Some(text) => match parse_count(text.as_str()) {
            Some(count) => if count > 0 {
                count
            } else {
                units
            },
            None => units,
        },
        None => units,
    }
}

/// Calls `num_cpus::get`.
///
/// Trusted: the number of processing units that this process may use, which
/// the crate documents to be at least 1. It is a fact of the machine and of
/// the moment, so two calls need not agree.
#[verifier::external_body]
fn processing_units() -> (units: usize)
    ensures
        units >= 1,
{
    num_cpus::get()
}

/// The size of the pool on this machine: `capacity_for` the explicit count
/// and the machine's number of processing units, whatever that is. A pool
/// always has at least one worker.
pub fn worker_capacity(explicit: &Option<String>) -> (capacity: usize)
    ensures
        capacity >= 1,
        exists|units: usize| units >= 1 && capacity == capacity_for(text_of(*explicit), units),
{
    let units = processing_units();
    resolve_capacity(explicit, units)
}

} // verus!
