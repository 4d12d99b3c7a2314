//! The limits of a run and the numbers that set them.

use vstd::prelude::*;

verus! {

/// The time limit for one test, in seconds, where none is given.
pub const DEFAULT_TIME_LIMIT_SECS: u64 = 32;

/// The memory limit for one test, in megabytes, where none is given.
pub const DEFAULT_MEMORY_LIMIT_MB: usize = 256;

/// The largest number of workers, where none is given.
pub const DEFAULT_MAX_WORKERS: usize = 10;

/// The number of bytes in a megabyte.
pub const BYTES_PER_MEGABYTE: usize = 1_000_000;

/// The limits that every run of the subject is held to.
#[derive(Clone, Copy, Debug, PartialEq, Eq, Structural)]
pub struct Limits {
    pub time_limit_secs: u64,
    pub memory_limit_bytes: usize,
}

impl Limits {
    /// The limits for a time limit in seconds and a memory limit in megabytes, or `None`
    /// where that many megabytes are more bytes than `usize` can hold.
    pub fn new(time_limit_secs: u64, memory_limit_mb: usize) -> (limits: Option<Limits>)
        ensures
            limits is Some <==> memory_limit_mb * BYTES_PER_MEGABYTE <= usize::MAX,
            limits matches Some(l) ==> l.time_limit_secs == time_limit_secs
                && l.memory_limit_bytes == memory_limit_mb * BYTES_PER_MEGABYTE,
    {
        match memory_limit_mb.checked_mul(BYTES_PER_MEGABYTE) {
            Some(memory_limit_bytes) => Some(Limits { time_limit_secs, memory_limit_bytes }),
            None => None,
        }
    }
}

impl Default for Limits {
    /// The limits where none are given: 32 seconds and 256 megabytes.
    fn default() -> (limits: Limits)
        ensures
            limits.time_limit_secs == DEFAULT_TIME_LIMIT_SECS,
            limits.memory_limit_bytes == DEFAULT_MEMORY_LIMIT_MB * BYTES_PER_MEGABYTE,
    {
        Limits {
            time_limit_secs: DEFAULT_TIME_LIMIT_SECS,
            memory_limit_bytes: DEFAULT_MEMORY_LIMIT_MB * BYTES_PER_MEGABYTE,
        }
    }
}

/// Whether `c` is one of the digits `0` to `9`.
pub open spec fn is_digit(c: char) -> bool {
    '0' <= c <= '9'
}

/// The number that a sequence of digits stands for in base ten; zero for no digit.
pub open spec fn decimal_value(digits: Seq<char>) -> nat
    decreases digits.len(),
{
    if digits.len() == 0 {
        0
    } else {
        (decimal_value(digits.drop_last()) * 10 + (digits.last() as u32 - '0' as u32)) as nat
    }
}

/// What follows the sign: `text` without a leading `+`, where it has one.
pub open spec fn unsigned_part(text: Seq<char>) -> Seq<char> {
    if text.len() > 0 && text[0] == '+' {
        text.drop_first()
    } else {
        text
    }
}

/// Whether `text` is written as a number: at least one digit and nothing else, but for a
/// `+` that may stand in front. Spaces are not skipped.
pub open spec fn is_number(text: Seq<char>) -> bool {
    &&& unsigned_part(text).len() > 0
    &&& forall|i: int|
        0 <= i < unsigned_part(text).len() ==> is_digit(#[trigger] unsigned_part(text)[i])
}

/// The number that `text` stands for.
pub open spec fn number_value(text: Seq<char>) -> nat {
    decimal_value(unsigned_part(text))
}

/// More digits never stand for less.
proof fn lemma_decimal_value_grows(digits: Seq<char>, k: int)
    requires
        0 <= k <= digits.len(),
        forall|i: int| 0 <= i < digits.len() ==> is_digit(#[trigger] digits[i]),
    ensures
        decimal_value(digits.take(k)) <= decimal_value(digits),
    decreases digits.len() - k,
{
    if k == digits.len() {
        assert(digits.take(k) =~= digits);
    } else {
        let longer = digits.drop_last();
        assert(longer.take(k) =~= digits.take(k));
        lemma_decimal_value_grows(longer, k);
    }
}

/// Reads `text` as a number in base ten. The result is `Some` exactly if `text` is written
/// as a number and that number fits in `u64`.
pub fn parse_number(text: &str) -> (value: Option<u64>)
    ensures
        value is Some <==> is_number(text@) && number_value(text@) <= u64::MAX,
        value matches Some(v) ==> v == number_value(text@),
{
    let ghost digits = unsigned_part(text@);
    let ghost sign: int = if text@.len() > 0 && text@[0] == '+' {
        1
    } else {
        0
    };
    let mut total: u64 = 0;
    let mut first = true;
    let mut any = false;
    assert(digits.take(0) =~= Seq::<char>::empty());
    for c in it: text.chars()
        invariant
            it.seq() == text@,
            digits == unsigned_part(text@),
            sign == (if text@.len() > 0 && text@[0] == '+' {
                1int
            } else {
                0int
            }),
            first <==> it.index() == 0,
            !first ==> it.index() >= sign,
            any <==> it.index() > sign,
            forall|i: int| 0 <= i < it.index() - sign ==> is_digit(#[trigger] digits[i]),
            total == decimal_value(
                digits.take(
                    if first {
                        0
                    } else {
                        it.index() - sign
                    },
                ),
            ),
    {
        let ghost k = it.index();
        if first && c == '+' {
            first = false;
        } else {
            first = false;
            let ghost j = k - sign;
            assert(digits[j] == c);
            if !('0' <= c && c <= '9') {
                return None;
            }
            let digit: u64 = (c as u32 - '0' as u32) as u64;
            proof {
                assert(digits.take(j + 1).drop_last() =~= digits.take(j));
                if is_number(text@) {
                    lemma_decimal_value_grows(digits, j + 1);
                }
            }
            match total.checked_mul(10) {
                None => {
                    return None;
                },
                Some(shifted) => match shifted.checked_add(digit) {
                    None => {
                        return None;
                    },
                    Some(next) => {
                        total = next;
                        any = true;
                    },
                },
            }
        }
    }
    proof {
        assert(digits.take(digits.len() as int) =~= digits);
    }
    if any {
        Some(total)
    } else {
        None
    }
}

/// Reads `text` as a count: a number that fits in `usize`.
pub fn parse_count(text: &str) -> (value: Option<usize>)
    ensures
        value is Some <==> is_number(text@) && number_value(text@) <= usize::MAX,
        value matches Some(v) ==> v == number_value(text@),
{
    match parse_number(text) {
        Some(v) => if v <= usize::MAX as u64 {
            Some(v as usize)
        } else {
            None
        },
        None => None,
    }
}

} // verus!
