//! Whether a failed request is tried again, and after how long.

use vstd::prelude::*;

use crate::error::{is_error_retryable, is_retryable, DlError};

verus! {

/// How often a segment is tried.
pub const MAX_SEGMENT_ATTEMPTS: u32 = 6;

/// How often the request of a single stream is tried.
pub const MAX_SINGLE_STREAM_ATTEMPTS: u32 = 5;

/// The number of milliseconds below which the random part of a delay stays.
pub const JITTER_LIMIT: u64 = 500;

/// The number of nanoseconds in a millisecond.
pub const NANOS_PER_MILLI: u128 = 1_000_000;

/// The number of nanoseconds in a second.
pub const NANOS_PER_SEC: u128 = 1_000_000_000;

/// The longest delay that a rate limit puts before a single stream, in
/// nanoseconds.
pub const MAX_SINGLE_STREAM_DELAY: u128 = 30_000_000_000;

/// The time before a single stream takes over from a parallel download that
/// met a rate limit, in nanoseconds.
pub const FALLBACK_DELAY: u128 = 3_000_000_000;

/// What becomes of a failed request.
#[derive(Debug, Clone, Copy, PartialEq, Eq, Structural)]
pub enum Retry {
    /// It is not tried again.
    GiveUp,
    /// It is tried again after this many nanoseconds.
    After(u128),
}

/// `fastrand::u64` over the range from zero up to `limit`: a random number in
/// that range, and nothing more is claimed of it.
#[verifier::external_body]
fn random_below(limit: u64) -> (n: u64)
    requires
        limit > 0,
    ensures
        n < limit,
{
    fastrand::u64(0..limit)
}

/// The random part of a delay, in milliseconds.
pub fn get_jitter_ms() -> (jitter: u64)
    ensures
        jitter < JITTER_LIMIT,
        jitter < 500,
{
    random_below(JITTER_LIMIT)
}

/// `base`, doubled for each attempt after the first.
pub open spec fn doubled(base: int, attempt: int) -> int
    decreases attempt,
{
    if attempt <= 1 {
        base
    } else {
        2 * doubled(base, attempt - 1)
    }
}

fn double(base: u64, attempt: u32) -> (r: u64)
    requires
        base <= 2000,
        attempt <= MAX_SEGMENT_ATTEMPTS,
    ensures
        r == doubled(base as int, attempt as int),
        r <= 2000 * 32,
    decreases attempt,
{
    proof {
        reveal_with_fuel(doubled, 7);
    }
    if attempt <= 1 {
        base
    } else {
        2 * double(base, attempt - 1)
    }
}

/// A growing delay, in nanoseconds: `base` milliseconds, doubled for each
/// attempt after the first, and a random part.
pub open spec fn backoff(base: int, attempt: int, jitter: int) -> int {
    (doubled(base, attempt) + jitter) * NANOS_PER_MILLI
}

fn backoff_nanos(base: u64, attempt: u32, jitter: u64) -> (r: u128)
    requires
        base <= 2000,
        attempt <= MAX_SEGMENT_ATTEMPTS,
        jitter < JITTER_LIMIT,
    ensures
        r == backoff(base as int, attempt as int, jitter as int),
{
    (double(base, attempt) + jitter) as u128 * NANOS_PER_MILLI
}

/// The delay before a segment is tried again: what the server asked for, a
/// little more with each attempt where it only named a rate limit, and a
/// growing delay after any other failure.
pub open spec fn segment_delay(error: DlError, attempt: int, jitter: int) -> int {
    match error {
        DlError::RateLimited { retry_after: Some(secs), .. } => secs * NANOS_PER_SEC,
        DlError::RateLimited { retry_after: None, .. } => (2 + attempt) * NANOS_PER_SEC,
        _ => backoff(1000, attempt, jitter),
    }
}

/// The delay before the request of a single stream is tried again: what the
/// server asked for or a growing delay after a rate limit, but no more than the
/// longest, and a growing delay after any other failure.
pub open spec fn single_delay(error: DlError, attempt: int, jitter: int) -> int {
    match error {
        DlError::RateLimited { retry_after, .. } => {
            let asked = match retry_after {
                Some(secs) => secs * NANOS_PER_SEC,
                None => backoff(2000, attempt, jitter),
            };
            if asked <= MAX_SINGLE_STREAM_DELAY {
                asked
            } else {
                MAX_SINGLE_STREAM_DELAY as int
            }
        },
        _ => backoff(1000, attempt, jitter),
    }
}

/// What becomes of a segment after a failure of the given attempt.
pub open spec fn segment_outcome(error: DlError, attempt: int, jitter: int) -> Retry {
    if attempt < MAX_SEGMENT_ATTEMPTS && is_retryable(error) {
        Retry::After(segment_delay(error, attempt, jitter) as u128)
    } else {
        Retry::GiveUp
    }
}

/// What becomes of a single stream's request after a failure of the given
/// attempt.
pub open spec fn single_outcome(error: DlError, attempt: int, jitter: int) -> Retry {
    if attempt < MAX_SINGLE_STREAM_ATTEMPTS && is_retryable(error) {
        Retry::After(single_delay(error, attempt, jitter) as u128)
    } else {
        Retry::GiveUp
    }
}

/// What becomes of a segment after a failure of the given attempt, with the
/// given random part of a delay.
pub fn segment_retry_with(error: &DlError, attempt: u32, jitter: u64) -> (r: Retry)
    requires
        jitter < JITTER_LIMIT,
    ensures
        r == segment_outcome(*error, attempt as int, jitter as int),
{
    if attempt >= MAX_SEGMENT_ATTEMPTS || !is_error_retryable(error) {
        return Retry::GiveUp;
    }
    match error {
        DlError::RateLimited { retry_after, .. } => match retry_after {
            Some(secs) => Retry::After(*secs as u128 * NANOS_PER_SEC),
            None => Retry::After((2 + attempt as u128) * NANOS_PER_SEC),
        },
        _ => Retry::After(backoff_nanos(1000, attempt, jitter)),
    }
}

/// What becomes of a single stream's request after a failure of the given
/// attempt, with the given random part of a delay.
pub fn single_retry_with(error: &DlError, attempt: u32, jitter: u64) -> (r: Retry)
    requires
        jitter < JITTER_LIMIT,
    ensures
        r == single_outcome(*error, attempt as int, jitter as int),
{
    if attempt >= MAX_SINGLE_STREAM_ATTEMPTS || !is_error_retryable(error) {
        return Retry::GiveUp;
    }
    match error {
        DlError::RateLimited { retry_after, .. } => {
            let asked: u128 = match retry_after {
                Some(secs) => *secs as u128 * NANOS_PER_SEC,
                None => backoff_nanos(2000, attempt, jitter),
            };
            if asked <= MAX_SINGLE_STREAM_DELAY {
                Retry::After(asked)
            } else {
                Retry::After(MAX_SINGLE_STREAM_DELAY)
            }
        },
        _ => Retry::After(backoff_nanos(1000, attempt, jitter)),
    }
}

/// What becomes of a segment after a failure of the given attempt.
pub fn segment_retry(error: &DlError, attempt: u32) -> (r: Retry)
    ensures
        exists|jitter: int|
            0 <= jitter < JITTER_LIMIT && r == #[trigger] segment_outcome(
                *error,
                attempt as int,
                jitter,
            ),
{
    let jitter: u64 = get_jitter_ms();
    segment_retry_with(error, attempt, jitter)
}

/// What becomes of a single stream's request after a failure of the given
/// attempt.
pub fn single_retry(error: &DlError, attempt: u32) -> (r: Retry)
    ensures
        exists|jitter: int|
            0 <= jitter < JITTER_LIMIT && r == #[trigger] single_outcome(
                *error,
                attempt as int,
                jitter,
            ),
{
    let jitter: u64 = get_jitter_ms();
    single_retry_with(error, attempt, jitter)
}

/// A failure for good is never tried again, and no request is tried more often
/// than the most that its kind allows.
pub proof fn retries_end(error: DlError, attempt: int, jitter: int)
    ensures
        !is_retryable(error) ==> segment_outcome(error, attempt, jitter) is GiveUp
            && single_outcome(error, attempt, jitter) is GiveUp,
        attempt >= MAX_SEGMENT_ATTEMPTS ==> segment_outcome(error, attempt, jitter) is GiveUp,
        attempt >= MAX_SINGLE_STREAM_ATTEMPTS ==> single_outcome(error, attempt, jitter) is GiveUp,
{
}

/// Each further attempt doubles the growing part of a delay.
pub proof fn delays_double(base: int, attempt: int)
    requires
        attempt >= 1,
    ensures
        doubled(base, 1) == base,
        doubled(base, attempt + 1) == 2 * doubled(base, attempt),
{
}

/// A segment is tried six times. It waits as long as the server asks; for three
/// seconds, and one more with each attempt, after a rate limit that names no
/// time; and for one second, doubled with each attempt, and the random part
/// after any other failure.
pub proof fn segment_waits_as_long_as_it_must(error: DlError, attempt: int, jitter: int)
    requires
        1 <= attempt,
        0 <= jitter < 500,
        is_retryable(error),
    ensures
        ({
            let outcome = segment_outcome(error, attempt, jitter);
            &&& outcome is GiveUp <==> attempt >= 6
            &&& attempt < 6 && error is RateLimited && error->retry_after is Some ==> outcome
                == Retry::After((error->retry_after->0 * 1_000_000_000) as u128)
            &&& attempt < 6 && error is RateLimited && error->retry_after is None ==> outcome
                == Retry::After(((attempt + 2) * 1_000_000_000) as u128)
            &&& attempt == 1 && !(error is RateLimited) ==> outcome == Retry::After(
                ((1000 + jitter) * 1_000_000) as u128,
            )
            &&& attempt == 2 && !(error is RateLimited) ==> outcome == Retry::After(
                ((2000 + jitter) * 1_000_000) as u128,
            )
            &&& attempt == 3 && !(error is RateLimited) ==> outcome == Retry::After(
                ((4000 + jitter) * 1_000_000) as u128,
            )
            &&& attempt == 4 && !(error is RateLimited) ==> outcome == Retry::After(
                ((8000 + jitter) * 1_000_000) as u128,
            )
            &&& attempt == 5 && !(error is RateLimited) ==> outcome == Retry::After(
                ((16000 + jitter) * 1_000_000) as u128,
            )
        }),
{
    reveal_with_fuel(doubled, 7);
}

/// The request of a single stream is tried five times. It waits as long as the
/// server asks, or for two seconds, doubled with each attempt, and the random
/// part after a rate limit that names no time, but never for more than thirty
/// seconds after a rate limit; and for one second, doubled with each attempt,
/// and the random part after any other failure.
pub proof fn single_stream_waits_as_long_as_it_must(error: DlError, attempt: int, jitter: int)
    requires
        1 <= attempt,
        0 <= jitter < 500,
        is_retryable(error),
    ensures
        ({
            let outcome = single_outcome(error, attempt, jitter);
            let asked = error is RateLimited && error->retry_after is Some;
            let limited = error is RateLimited && error->retry_after is None;
            &&& outcome is GiveUp <==> attempt >= 5
            &&& attempt < 5 && asked && error->retry_after->0 <= 30 ==> outcome == Retry::After(
                (error->retry_after->0 * 1_000_000_000) as u128,
            )
            &&& attempt < 5 && asked && error->retry_after->0 > 30 ==> outcome == Retry::After(
                30_000_000_000,
            )
            &&& attempt == 1 && limited ==> outcome == Retry::After(
                ((2000 + jitter) * 1_000_000) as u128,
            )
            &&& attempt == 2 && limited ==> outcome == Retry::After(
                ((4000 + jitter) * 1_000_000) as u128,
            )
            &&& attempt == 3 && limited ==> outcome == Retry::After(
                ((8000 + jitter) * 1_000_000) as u128,
            )
            &&& attempt == 4 && limited ==> outcome == Retry::After(
                ((16000 + jitter) * 1_000_000) as u128,
            )
            &&& attempt == 1 && !(error is RateLimited) ==> outcome == Retry::After(
                ((1000 + jitter) * 1_000_000) as u128,
            )
            &&& attempt == 2 && !(error is RateLimited) ==> outcome == Retry::After(
                ((2000 + jitter) * 1_000_000) as u128,
            )
            &&& attempt == 3 && !(error is RateLimited) ==> outcome == Retry::After(
                ((4000 + jitter) * 1_000_000) as u128,
            )
            &&& attempt == 4 && !(error is RateLimited) ==> outcome == Retry::After(
                ((8000 + jitter) * 1_000_000) as u128,
            )
        }),
{
    reveal_with_fuel(doubled, 7);
}

} // verus!
