//! How many workers a download runs, by what the last change of their number
//! did to the speed.

use vstd::prelude::*;

use crate::chunks::least;

verus! {

/// The time over which a speed is measured, at least, in nanoseconds.
pub const MIN_WINDOW: u128 = 500_000_000;

/// The most workers that a change of their number starts or stops.
pub const SCALE_STEP: usize = 2;

/// A change of the number of workers.
#[derive(Debug, Clone, Copy, PartialEq, Eq, Structural)]
pub enum ScalerAction {
    /// Start `count` workers, numbered from `start_id` on.
    ScaleUp { count: usize, start_id: usize },
    /// Stop `count` workers.
    ScaleDown { count: usize },
}

/// A measured speed. It is held as the bit pattern of a floating-point number
/// that is not negative: zero has the pattern zero, and no other speed has.
#[derive(Debug, Clone, Copy, PartialEq, Eq, Structural)]
pub struct SpeedReading {
    pub speed: u64,
    /// The speed is higher than the last one on record by eight percent of that
    /// one, or more.
    pub improved: bool,
}

/// The number of workers, and the speed that it is judged by.
#[derive(Debug, Clone, Copy, PartialEq, Eq, Structural)]
pub struct DynamicScaler {
    pub min_workers: usize,
    pub max_workers: usize,
    pub current_worker_count: usize,
    pub next_worker_id: usize,
    pub last_bytes: u64,
    /// When the speed was last measured, in nanoseconds.
    pub last_time: u128,
    pub last_speed: Option<u64>,
    pub consecutive_no_improvement: u32,
}

/// What the scaler is told at a tick.
pub struct ScalerEvent {
    pub current_bytes: u64,
    pub queue_is_empty: bool,
    pub now: u128,
    pub reading: SpeedReading,
}

/// Time that has passed; none where the clock reads earlier.
pub open spec fn passed(since: u128, now: u128) -> int {
    if now >= since {
        now - since
    } else {
        0
    }
}

impl DynamicScaler {
    /// The scaler of a download that starts with the given workers and bytes.
    pub fn new(initial_workers: usize, initial_bytes: u64, now: u128) -> (scaler: Self)
        ensures
            scaler == (DynamicScaler {
                min_workers: 1,
                max_workers: 32,
                current_worker_count: initial_workers,
                next_worker_id: initial_workers,
                last_bytes: initial_bytes,
                last_time: now,
                last_speed: None,
                consecutive_no_improvement: 0,
            }),
            initial_workers >= 1 ==> scaler.is_sound(),
    {
        DynamicScaler {
            min_workers: 1,
            max_workers: 32,
            current_worker_count: initial_workers,
            next_worker_id: initial_workers,
            last_bytes: initial_bytes,
            last_time: now,
            last_speed: None,
            consecutive_no_improvement: 0,
        }
    }

    /// At least one worker runs, and each that runs has been given a number.
    pub open spec fn is_sound(self) -> bool {
        &&& 1 <= self.min_workers <= self.max_workers
        &&& self.min_workers <= self.current_worker_count <= self.next_worker_id
    }

    /// The counters have room for another tick.
    pub open spec fn has_room(self) -> bool {
        &&& self.next_worker_id + SCALE_STEP <= usize::MAX
        &&& self.current_worker_count + SCALE_STEP <= usize::MAX
        &&& self.consecutive_no_improvement < u32::MAX
    }

    /// As many more workers as a step allows, while there are fewer than the
    /// most.
    pub open spec fn scaled_up(self) -> (Self, Option<ScalerAction>) {
        if self.current_worker_count < self.max_workers {
            let count = least(
                SCALE_STEP as int,
                self.max_workers - self.current_worker_count,
            ) as usize;
            (
                DynamicScaler {
                    next_worker_id: (self.next_worker_id + count) as usize,
                    current_worker_count: (self.current_worker_count + count) as usize,
                    ..self
                },
                Some(ScalerAction::ScaleUp { count, start_id: self.next_worker_id }),
            )
        } else {
            (self, None)
        }
    }

    /// The state after a speed that is no improvement: the first one in a row
    /// takes workers away, as many as a step allows and the least number
    /// permits, and has the next speed judged afresh.
    pub open spec fn held_back(self) -> (Self, Option<ScalerAction>) {
        let count = least(
            SCALE_STEP as int,
            self.current_worker_count - self.min_workers,
        ) as usize;
        let noted = DynamicScaler {
            consecutive_no_improvement: (self.consecutive_no_improvement + 1) as u32,
            ..self
        };
        if self.consecutive_no_improvement == 0 && self.current_worker_count > self.min_workers {
            (
                DynamicScaler {
                    current_worker_count: (self.current_worker_count - count) as usize,
                    last_speed: None,
                    ..noted
                },
                Some(ScalerAction::ScaleDown { count }),
            )
        } else {
            (noted, None)
        }
    }

    /// The state and the change after a tick.
    pub open spec fn after(self, event: ScalerEvent) -> (Self, Option<ScalerAction>) {
        let measured = DynamicScaler {
            last_bytes: event.current_bytes,
            last_time: event.now,
            ..self
        };
        let recorded = DynamicScaler { last_speed: Some(event.reading.speed), ..measured };
        if passed(self.last_time, event.now) < MIN_WINDOW {
            (self, None)
        } else if event.queue_is_empty {
            (measured, None)
        } else {
            match self.last_speed {
                None => recorded.scaled_up(),
                Some(0) => (recorded, None),
                Some(_) => if event.reading.improved {
                    DynamicScaler { consecutive_no_improvement: 0, ..recorded }.scaled_up()
                } else {
                    measured.held_back()
                },
            }
        }
    }

    /// The bytes that came in since the speed was last measured, and the time
    /// that this took; `None` while it is too early to measure again.
    pub fn window(&self, current_bytes: u64, now: u128) -> (r: Option<(u64, u128)>)
        ensures
            match r {
                Some((bytes, elapsed)) => {
                    &&& elapsed == passed(self.last_time, now) >= MIN_WINDOW
                    &&& bytes == (if current_bytes >= self.last_bytes {
                        current_bytes - self.last_bytes
                    } else {
                        0
                    })
                },
                None => passed(self.last_time, now) < MIN_WINDOW,
            },
    {
        let elapsed: u128 = if now >= self.last_time {
            now - self.last_time
        } else {
            0
        };
        if elapsed < MIN_WINDOW {
            return None;
        }
        let bytes: u64 = if current_bytes >= self.last_bytes {
            current_bytes - self.last_bytes
        } else {
            0
        };
        Some((bytes, elapsed))
    }

    fn scale_up(&mut self) -> (action: Option<ScalerAction>)
        requires
            old(self).has_room(),
        ensures
            (*final(self), action) == old(self).scaled_up(),
    {
        if self.current_worker_count < self.max_workers {
            let missing: usize = self.max_workers - self.current_worker_count;
            let count: usize = if SCALE_STEP <= missing {
                SCALE_STEP
            } else {
                missing
            };
            let start_id: usize = self.next_worker_id;
            self.next_worker_id = start_id + count;
            self.current_worker_count = self.current_worker_count + count;
            Some(ScalerAction::ScaleUp { count, start_id })
        } else {
            None
        }
    }

    fn hold_back(&mut self) -> (action: Option<ScalerAction>)
        requires
            old(self).has_room(),
        ensures
            (*final(self), action) == old(self).held_back(),
    {
        self.consecutive_no_improvement = self.consecutive_no_improvement + 1;
        if self.consecutive_no_improvement == 1 && self.current_worker_count > self.min_workers {
            let spare: usize = self.current_worker_count - self.min_workers;
            let count: usize = if SCALE_STEP <= spare {
                SCALE_STEP
            } else {
                spare
            };
            self.current_worker_count = self.current_worker_count - count;
            self.last_speed = None;
            Some(ScalerAction::ScaleDown { count })
        } else {
            None
        }
    }

    /// Takes a tick: the bytes so far, whether work is left to hand out, the
    /// time, and the speed since the last measurement.
    pub fn update(
        &mut self,
        current_bytes: u64,
        queue_is_empty: bool,
        now: u128,
        reading: SpeedReading,
    ) -> (action: Option<ScalerAction>)
        requires
            old(self).has_room(),
        ensures
            (*final(self), action) == old(self).after(
                ScalerEvent { current_bytes, queue_is_empty, now, reading },
            ),
            old(self).is_sound() ==> final(self).is_sound(),
    {
        if self.window(current_bytes, now).is_none() {
            return None;
        }
        self.last_bytes = current_bytes;
        self.last_time = now;
        if queue_is_empty {
            return None;
        }
        match self.last_speed {
            None => {
                self.last_speed = Some(reading.speed);
                self.scale_up()
            },
            Some(speed) => if speed > 0 {
                if reading.improved {
                    self.last_speed = Some(reading.speed);
                    self.consecutive_no_improvement = 0;
                    self.scale_up()
                } else {
                    self.hold_back()
                }
            } else {
                self.last_speed = Some(reading.speed);
                None
            },
        }
    }

    /// The state after a series of ticks.
    pub open spec fn after_all(self, events: Seq<ScalerEvent>) -> Self
        decreases events.len(),
    {
        if events.len() == 0 {
            self
        } else {
            self.after_all(events.drop_last()).after(events.last()).0
        }
    }

    /// The change at tick `k` of a series.
    pub open spec fn change_at(self, events: Seq<ScalerEvent>, k: int) -> Option<ScalerAction> {
        self.after_all(events.take(k)).after(events[k]).1
    }

    /// The counters have room for `n` ticks.
    pub open spec fn has_room_for(self, n: nat) -> bool {
        &&& self.next_worker_id + SCALE_STEP * n <= usize::MAX
        &&& self.current_worker_count + SCALE_STEP * n <= usize::MAX
        &&& self.consecutive_no_improvement + n <= u32::MAX
    }
}

proof fn lemma_after_all(scaler: DynamicScaler, events: Seq<ScalerEvent>)
    requires
        scaler.is_sound(),
        scaler.has_room_for(events.len()),
    ensures
        ({
            let end = scaler.after_all(events);
            &&& end.is_sound()
            &&& end.min_workers == scaler.min_workers
            &&& end.max_workers == scaler.max_workers
            &&& scaler.next_worker_id <= end.next_worker_id <= scaler.next_worker_id + SCALE_STEP
                * events.len()
            &&& end.current_worker_count <= scaler.current_worker_count + SCALE_STEP * events.len()
            &&& end.current_worker_count <= scaler.current_worker_count
                || end.current_worker_count <= scaler.max_workers
            &&& end.consecutive_no_improvement <= scaler.consecutive_no_improvement + events.len()
        }),
    decreases events.len(),
{
    if events.len() > 0 {
        lemma_after_all(scaler, events.drop_last());
    }
}

/// Whatever the speeds are, the number of workers never falls below the least
/// number nor rises above the most, unless it started there.
pub proof fn worker_count_stays_in_range(scaler: DynamicScaler, events: Seq<ScalerEvent>)
    requires
        scaler.is_sound(),
        scaler.has_room_for(events.len()),
    ensures
        scaler.min_workers <= scaler.after_all(events).current_worker_count,
        scaler.after_all(events).current_worker_count <= scaler.max_workers
            || scaler.after_all(events).current_worker_count <= scaler.current_worker_count,
{
    lemma_after_all(scaler, events);
}

/// After one speed that was no improvement, another one takes no more workers
/// away.
pub proof fn second_slow_tick_takes_none_away(scaler: DynamicScaler, event: ScalerEvent)
    requires
        scaler.consecutive_no_improvement > 0,
    ensures
        !(scaler.after(event).1 matches Some(ScalerAction::ScaleDown { .. })),
{
}

proof fn lemma_after_all_grows(scaler: DynamicScaler, events: Seq<ScalerEvent>, i: int, j: int)
    requires
        scaler.is_sound(),
        scaler.has_room_for(events.len()),
        0 <= i <= j <= events.len(),
    ensures
        scaler.after_all(events.take(i)).next_worker_id <= scaler.after_all(
            events.take(j),
        ).next_worker_id,
    decreases j - i,
{
    if i < j {
        lemma_after_all_grows(scaler, events, i, j - 1);
        assert(events.take(j).drop_last() =~= events.take(j - 1));
        lemma_after_all(scaler, events.take(j - 1));
    }
}

/// No worker number is given twice: the numbers of workers that start at a
/// later tick all lie above those given before.
pub proof fn worker_numbers_are_fresh(
    scaler: DynamicScaler,
    events: Seq<ScalerEvent>,
    i: int,
    j: int,
)
    requires
        scaler.is_sound(),
        scaler.has_room_for(events.len()),
        0 <= i < j < events.len(),
    ensures
        scaler.change_at(events, i) matches Some(ScalerAction::ScaleUp { count, start_id })
            ==> scaler.next_worker_id <= start_id && (scaler.change_at(events, j) matches Some(
            ScalerAction::ScaleUp { count: _, start_id: later },
        ) ==> start_id + count <= later),
{
    lemma_after_all(scaler, events.take(i));
    lemma_after_all(scaler, events.take(i + 1));
    assert(events.take(i + 1).drop_last() =~= events.take(i));
    lemma_after_all_grows(scaler, events, i + 1, j);
    lemma_after_all(scaler, events.take(j));
}

/// Within half a second of the last measurement nothing changes; and while no
/// work is left to hand out the number of workers does not.
pub proof fn early_and_idle_ticks_change_nothing(scaler: DynamicScaler, event: ScalerEvent)
    ensures
        event.now < scaler.last_time + 500_000_000 ==> scaler.after(event) == (
            scaler,
            None::<ScalerAction>,
        ),
        event.queue_is_empty ==> scaler.after(event).1 is None && scaler.after(
            event,
        ).0.current_worker_count == scaler.current_worker_count && scaler.after(event).0.last_speed
            == scaler.last_speed,
        event.queue_is_empty && event.now >= scaler.last_time + 500_000_000 ==> scaler.after(
            event,
        ).0.last_time == event.now && scaler.after(event).0.last_bytes == event.current_bytes,
{
}

/// The first speed, and each one that is an improvement, brings two more
/// workers, or as many as are missing to the most; they are numbered from the
/// next free number on, and the speed is what the next one is judged by.
pub proof fn improvement_brings_more_workers(scaler: DynamicScaler, event: ScalerEvent)
    requires
        scaler.is_sound(),
        scaler.has_room(),
        event.now >= scaler.last_time + 500_000_000,
        !event.queue_is_empty,
        scaler.last_speed is None || scaler.last_speed->0 != 0 && event.reading.improved,
    ensures
        ({
            let (next, change) = scaler.after(event);
            let missing = scaler.max_workers - scaler.current_worker_count;
            &&& missing >= 2 ==> change == Some(
                ScalerAction::ScaleUp { count: 2, start_id: scaler.next_worker_id },
            ) && next.current_worker_count == scaler.current_worker_count + 2
                && next.next_worker_id == scaler.next_worker_id + 2
            &&& missing == 1 ==> change == Some(
                ScalerAction::ScaleUp { count: 1, start_id: scaler.next_worker_id },
            ) && next.current_worker_count == scaler.current_worker_count + 1
                && next.next_worker_id == scaler.next_worker_id + 1
            &&& missing <= 0 ==> change is None && next.current_worker_count
                == scaler.current_worker_count
            &&& next.last_speed == Some(event.reading.speed)
            &&& scaler.last_speed is Some ==> next.consecutive_no_improvement == 0
            &&& next.last_time == event.now
            &&& next.last_bytes == event.current_bytes
        }),
{
}

/// The first speed in a row that is no improvement takes two workers away, or
/// the one above the least number, and has the next speed start afresh; further
/// ones take none away and leave the speed to beat as it is; and after a speed
/// of nothing no change is made.
pub proof fn stagnation_takes_workers_away_once(scaler: DynamicScaler, event: ScalerEvent)
    requires
        scaler.is_sound(),
        scaler.has_room(),
        event.now >= scaler.last_time + 500_000_000,
        !event.queue_is_empty,
        scaler.last_speed is Some,
        scaler.last_speed->0 == 0 || !event.reading.improved,
    ensures
        ({
            let (next, change) = scaler.after(event);
            let spare = scaler.current_worker_count - scaler.min_workers;
            let first = scaler.consecutive_no_improvement == 0 && scaler.last_speed->0 != 0;
            &&& first && spare >= 2 ==> change == Some(ScalerAction::ScaleDown { count: 2 })
                && next.current_worker_count == scaler.current_worker_count - 2
                && next.last_speed is None
            &&& first && spare == 1 ==> change == Some(ScalerAction::ScaleDown { count: 1 })
                && next.current_worker_count == scaler.current_worker_count - 1
                && next.last_speed is None
            &&& !first || spare == 0 ==> change is None && next.current_worker_count
                == scaler.current_worker_count
            &&& scaler.last_speed->0 == 0 ==> next.last_speed == Some(event.reading.speed)
                && next.consecutive_no_improvement == scaler.consecutive_no_improvement
            &&& scaler.last_speed->0 != 0 ==> next.consecutive_no_improvement
                == scaler.consecutive_no_improvement + 1
            &&& scaler.last_speed->0 != 0 && (!first || spare == 0) ==> next.last_speed
                == scaler.last_speed
            &&& next.next_worker_id == scaler.next_worker_id
            &&& next.last_time == event.now
            &&& next.last_bytes == event.current_bytes
        }),
{
}

} // verus!
