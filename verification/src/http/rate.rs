//! A limit on the rate of a download: each piece books the time that it takes
//! at the limit, one piece after the other.

use vstd::prelude::*;

use crate::http::retry::NANOS_PER_SEC;

verus! {

/// The limit and the time from which it has room again, in nanoseconds.
#[derive(Debug, Clone, Copy, PartialEq, Eq, Structural)]
pub struct RateLimiter {
    /// Bytes per second.
    pub rate: u64,
    pub next: u128,
}

/// A piece of the download: when it came in, and the time that it takes at the
/// limit.
pub struct Booking {
    pub now: u128,
    pub cost: u128,
}

impl RateLimiter {
    /// A limit of `rate` bytes per second, but of one at least.
    pub fn new(rate: u64, now: u128) -> (limiter: Self)
        ensures
            limiter.rate == (if rate < 1 {
                1
            } else {
                rate
            }),
            limiter.next == now,
    {
        RateLimiter {
            rate: if rate < 1 {
                1
            } else {
                rate
            },
            next: now,
        }
    }

    /// When a piece that comes in at `now` has its turn.
    pub open spec fn turn(self, now: u128) -> u128 {
        if self.next >= now {
            self.next
        } else {
            now
        }
    }

    /// The limiter after a piece has been booked.
    pub open spec fn booked(self, booking: Booking) -> Self {
        RateLimiter { next: (self.turn(booking.now) + booking.cost) as u128, ..self }
    }

    /// Books the time `cost` for a piece that comes in at `now`, and says how
    /// long it has to wait for its turn.
    pub fn reserve(&mut self, now: u128, cost: u128) -> (wait: u128)
        requires
            old(self).turn(now) + cost <= u128::MAX,
        ensures
            *final(self) == old(self).booked(Booking { now, cost }),
            wait == old(self).turn(now) - now,
    {
        let start: u128 = if self.next >= now {
            self.next
        } else {
            now
        };
        self.next = start + cost;
        start - now
    }

    /// The limiter after the first `k` of a series of pieces.
    pub open spec fn after_first(self, bookings: Seq<Booking>, k: int) -> Self
        decreases k,
    {
        if k <= 0 {
            self
        } else {
            self.after_first(bookings, k - 1).booked(bookings[k - 1])
        }
    }

    /// When piece `k` of a series has its turn.
    pub open spec fn turn_of(self, bookings: Seq<Booking>, k: int) -> u128 {
        self.after_first(bookings, k).turn(bookings[k].now)
    }

    /// No booking of a series runs past the end of time.
    pub open spec fn has_time_for(self, bookings: Seq<Booking>) -> bool {
        forall|k: int|
            0 <= k < bookings.len() ==> #[trigger] self.turn_of(bookings, k) + bookings[k].cost
                <= u128::MAX
    }
}

/// The time that the pieces from `i` up to `j` take at the limit.
pub open spec fn cost_between(bookings: Seq<Booking>, i: int, j: int) -> int
    decreases j - i,
{
    if i >= j {
        0
    } else {
        cost_between(bookings, i, j - 1) + bookings[j - 1].cost
    }
}

/// Between the turns of two pieces lies at least the time that the pieces from
/// the one to the other take at the limit, however fast they came in: the
/// limit holds over every stretch of the download.
pub proof fn limit_holds_over_every_stretch(
    limiter: RateLimiter,
    bookings: Seq<Booking>,
    i: int,
    j: int,
)
    requires
        limiter.has_time_for(bookings),
        0 <= i <= j < bookings.len(),
    ensures
        limiter.turn_of(bookings, i) + cost_between(bookings, i, j) <= limiter.turn_of(
            bookings,
            j,
        ),
    decreases j - i,
{
    if i < j {
        limit_holds_over_every_stretch(limiter, bookings, i, j - 1);
        assert(limiter.turn_of(bookings, j - 1) + bookings[j - 1].cost <= u128::MAX);
    }
}

/// The number of bytes in the pieces from `i` up to `j`.
pub open spec fn bytes_between(bytes: Seq<nat>, i: int, j: int) -> nat
    decreases j - i,
{
    if i >= j {
        0
    } else {
        bytes_between(bytes, i, j - 1) + bytes[j - 1]
    }
}

/// A piece books the time that its bytes take at the rate, but for `slack`, the
/// rounding of that time, in bytes times nanoseconds per second.
pub open spec fn books_its_bytes(rate: u64, booking: Booking, bytes: nat, slack: nat) -> bool {
    booking.cost * rate + slack >= bytes * NANOS_PER_SEC
}

proof fn lemma_bytes_cost(
    rate: u64,
    bookings: Seq<Booking>,
    bytes: Seq<nat>,
    slack: nat,
    i: int,
    j: int,
)
    requires
        0 <= i <= j <= bookings.len(),
        bytes.len() == bookings.len(),
        forall|k: int|
            0 <= k < bookings.len() ==> books_its_bytes(
                rate,
                #[trigger] bookings[k],
                bytes[k],
                slack,
            ),
    ensures
        bytes_between(bytes, i, j) * NANOS_PER_SEC <= rate * cost_between(bookings, i, j) + (j - i)
            * slack,
    decreases j - i,
{
    if i < j {
        lemma_bytes_cost(rate, bookings, bytes, slack, i, j - 1);
        let cost = bookings[j - 1].cost as int;
        let before = cost_between(bookings, i, j - 1);
        assert(books_its_bytes(rate, bookings[j - 1], bytes[j - 1], slack));
        assert(rate * (before + cost) == rate * before + cost * rate) by (nonlinear_arith);
        assert((j - i) * slack == (j - 1 - i) * slack + slack) by (nonlinear_arith);
    }
}

/// The limit in bytes: from the turn of one piece to that of another, the bytes
/// of the pieces from the one to the other stay within the rate times that
/// time, but for the rounding of the time that each piece books, whoever the
/// pieces are for.
pub proof fn bytes_stay_within_the_rate(
    limiter: RateLimiter,
    bookings: Seq<Booking>,
    bytes: Seq<nat>,
    slack: nat,
    i: int,
    j: int,
)
    requires
        limiter.has_time_for(bookings),
        0 <= i <= j < bookings.len(),
        bytes.len() == bookings.len(),
        forall|k: int|
            0 <= k < bookings.len() ==> books_its_bytes(
                limiter.rate,
                #[trigger] bookings[k],
                bytes[k],
                slack,
            ),
    ensures
        bytes_between(bytes, i, j) * NANOS_PER_SEC <= limiter.rate * (limiter.turn_of(bookings, j)
            - limiter.turn_of(bookings, i)) + (j - i) * slack,
{
    limit_holds_over_every_stretch(limiter, bookings, i, j);
    lemma_bytes_cost(limiter.rate, bookings, bytes, slack, i, j);
    let rate = limiter.rate as int;
    let cost = cost_between(bookings, i, j);
    let time = limiter.turn_of(bookings, j) - limiter.turn_of(bookings, i);
    assert(rate * cost <= rate * time) by (nonlinear_arith)
        requires
            rate >= 0,
            cost <= time,
    ;
}

/// A piece that comes in when nothing is booked ahead of it does not wait.
pub proof fn idle_limiter_does_not_wait(limiter: RateLimiter, now: u128)
    requires
        limiter.next <= now,
    ensures
        limiter.turn(now) == now,
{
}

/// A piece never has its turn before it came in.
pub proof fn turn_is_not_early(limiter: RateLimiter, bookings: Seq<Booking>, k: int)
    requires
        0 <= k < bookings.len(),
    ensures
        limiter.turn_of(bookings, k) >= bookings[k].now,
{
}

/// A piece waits for those booked ahead of it and no longer, and the next piece
/// has its turn once the time of this one has passed.
pub proof fn piece_waits_no_longer_than_it_must(limiter: RateLimiter, booking: Booking, later: u128)
    requires
        limiter.turn(booking.now) + booking.cost <= u128::MAX,
        later <= limiter.turn(booking.now) + booking.cost,
    ensures
        limiter.next > booking.now ==> limiter.turn(booking.now) == limiter.next,
        limiter.next <= booking.now ==> limiter.turn(booking.now) == booking.now,
        limiter.booked(booking).turn(later) == limiter.turn(booking.now) + booking.cost,
        limiter.booked(booking).rate == limiter.rate,
{
}

} // verus!
