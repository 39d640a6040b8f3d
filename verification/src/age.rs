//! The age gate: whether a reminder is old enough to be shown.
//!
//! A reminder is due when the time elapsed since the marker file was last
//! modified strictly exceeds a threshold. The threshold comes from a
//! command-line argument, a decimal number of seconds, and falls back to a
//! default when the argument is absent or does not parse.

use vstd::prelude::*;

verus! {

/// Threshold used when no age argument is given: 45 minutes.
pub const DEFAULT_MIN_AGE_SECONDS: u64 = 2700;

/// True when an elapsed time of `elapsed_secs` seconds plus `elapsed_nanos`
/// nanoseconds strictly exceeds `min_age_secs` whole seconds. An elapsed
/// time of exactly the threshold does not exceed it.
pub open spec fn age_exceeds(elapsed_secs: u64, elapsed_nanos: u32, min_age_secs: u64) -> bool {
    elapsed_secs > min_age_secs || (elapsed_secs == min_age_secs && elapsed_nanos > 0)
}

/// Whether the reminder should be printed: only for an existing marker file,
/// and only when the time since its last modification strictly exceeds the
/// threshold. A missing file is never printed and is not an error.
pub fn should_print(
    is_file: bool,
    elapsed_secs: u64,
    elapsed_nanos: u32,
    min_age_secs: u64,
) -> (r: bool)
    ensures
        r <==> is_file && age_exceeds(elapsed_secs, elapsed_nanos, min_age_secs),
{
    is_file && (elapsed_secs > min_age_secs || (elapsed_secs == min_age_secs && elapsed_nanos > 0))
}

/// The digit part of a number argument: a single leading `+` is allowed and
/// carries no meaning.
pub open spec fn digits_of(s: Seq<u8>) -> Seq<u8> {
    if s.len() > 0 && s[0] == 43u8 {
        s.skip(1)
    } else {
        s
    }
}

/// True when `s` is one or more ASCII decimal digits.
pub open spec fn is_dec_digits(s: Seq<u8>) -> bool {
    s.len() > 0 && forall|i: int| 0 <= i < s.len() ==> 48 <= #[trigger] s[i] <= 57
}

/// The number that the digit string `s` denotes in base ten.
pub open spec fn dec_value(s: Seq<u8>) -> int
    decreases s.len(),
{
    if s.len() == 0 {
        0
    } else {
        dec_value(s.drop_last()) * 10 + (s.last() - 48)
    }
}

/// A digit string denotes a number that is not negative.
pub proof fn lemma_dec_value_nonneg(s: Seq<u8>)
    requires
        forall|i: int| 0 <= i < s.len() ==> 48 <= #[trigger] s[i] <= 57,
    ensures
        dec_value(s) >= 0,
    decreases s.len(),
{
    if s.len() > 0 {
        assert(forall|i: int| 0 <= i < s.drop_last().len() ==> 48 <= #[trigger] s.drop_last()[i] <= 57);
        lemma_dec_value_nonneg(s.drop_last());
    }
}

/// Extending a digit string never shrinks the number it denotes.
pub proof fn lemma_dec_value_prefix(s: Seq<u8>, k: int)
    requires
        0 <= k <= s.len(),
        forall|i: int| 0 <= i < s.len() ==> 48 <= #[trigger] s[i] <= 57,
    ensures
        dec_value(s.take(k)) <= dec_value(s),
    decreases s.len() - k,
{
    if k < s.len() {
        assert(s.take(k + 1).drop_last() =~= s.take(k));
        assert(s.take(k + 1).last() == s[k]);
        assert(forall|i: int| 0 <= i < s.take(k).len() ==> 48 <= #[trigger] s.take(k)[i] <= 57);
        lemma_dec_value_nonneg(s.take(k));
        lemma_dec_value_prefix(s, k + 1);
    } else {
        assert(s.take(k) =~= s);
    }
}

/// Reads an unsigned decimal number, as the age argument is read: one or
/// more digits after an optional `+`, rejected when malformed or too large.
pub fn parse_u64(s: &Vec<u8>) -> (r: Option<u64>)
    ensures
        match r {
            Some(v) => is_dec_digits(digits_of(s@)) && v == dec_value(digits_of(s@)),
            None => !(is_dec_digits(digits_of(s@)) && dec_value(digits_of(s@)) <= u64::MAX),
        },
{
    let start: usize = if s.len() > 0 && s[0] == 43u8 {
        1
    } else {
        0
    };
    proof {
        assert(digits_of(s@) =~= s@.skip(start as int));
    }
    if s.len() == start {
        return None;
    }
    let mut i: usize = start;
    let mut acc: u64 = 0;
    while i < s.len()
        invariant
            start <= i <= s@.len(),
            digits_of(s@) =~= s@.skip(start as int),
            forall|j: int| start <= j < i ==> 48 <= #[trigger] s@[j] <= 57,
            acc == dec_value(s@.subrange(start as int, i as int)),
        decreases s@.len() - i,
    {
        let b = s[i];
        if b < 48 || b > 57 {
            proof {
                assert(digits_of(s@)[i - start] == s@[i as int]);
            }
            return None;
        }
        let d: u64 = (b - 48) as u64;
        proof {
            assert(s@.subrange(start as int, i + 1).drop_last() =~= s@.subrange(
                start as int,
                i as int,
            ));
            assert(s@.subrange(start as int, i + 1).last() == s@[i as int]);
        }
        if acc > u64::MAX / 10 || (acc == u64::MAX / 10 && d > u64::MAX % 10) {
            proof {
                if is_dec_digits(digits_of(s@)) {
                    lemma_dec_value_prefix(digits_of(s@), i + 1 - start);
                    assert(digits_of(s@).take(i + 1 - start) =~= s@.subrange(start as int, i + 1));
                }
            }
            return None;
        }
        acc = acc * 10 + d;
        i = i + 1;
    }
    proof {
        assert(s@.subrange(start as int, s@.len() as int) =~= s@.skip(start as int));
    }
    Some(acc)
}

/// The threshold in seconds that an age argument asks for: the parsed value
/// when the argument is present and well formed, the default otherwise.
pub fn min_age_seconds(arg: Option<&Vec<u8>>) -> (r: u64)
    ensures
        match arg {
            None => r == DEFAULT_MIN_AGE_SECONDS,
            Some(s) => if is_dec_digits(digits_of(s@)) && dec_value(digits_of(s@)) <= u64::MAX {
                r == dec_value(digits_of(s@))
            } else {
                r == DEFAULT_MIN_AGE_SECONDS
            },
        },
{
    match arg {
        None => DEFAULT_MIN_AGE_SECONDS,
        Some(s) => match parse_u64(s) {
            Some(v) => v,
            None => DEFAULT_MIN_AGE_SECONDS,
        },
    }
}

} // verus!
