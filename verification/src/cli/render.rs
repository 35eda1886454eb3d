//! When progress is shown, and what is shown of the speed.

use std::collections::VecDeque;
use vstd::prelude::*;

use crate::cli::lang::Lang;
use crate::cli::units::{
    as_float, duration_text, format_bytes, format_duration, size_text,
};
use crate::types::{DownloadPhase, DownloadProgress};

verus! {

/// The time over which the speed is measured, in nanoseconds.
pub const SPEED_WINDOW: u128 = 3_000_000_000;

/// The time without news after which nothing is taken to come in any more, in
/// nanoseconds.
pub const STALL_TIME: u128 = 2_000_000_000;

/// The shortest time over which a speed is told, in nanoseconds.
pub const MIN_SPAN: u128 = 10_000_000;

/// The least time between two updates of the screen, in nanoseconds.
pub const UI_UPDATE_INTERVAL: u128 = 200_000_000;

/// The bytes at a number of times, from which the speed is told.
pub struct SpeedTracker {
    /// Times, in nanoseconds, and how many bytes there were.
    pub history: VecDeque<(u128, u64)>,
    pub window_duration: u128,
}

/// The samples that are left when those before `threshold` are dropped, except
/// for the newest.
pub open spec fn pruned(history: Seq<(u128, u64)>, threshold: int) -> Seq<(u128, u64)>
    decreases history.len(),
{
    if history.len() > 1 && history[0].0 < threshold {
        pruned(history.skip(1), threshold)
    } else {
        history
    }
}

/// The time from which on samples count.
pub open spec fn threshold(now: u128, window: u128) -> int {
    if now >= window {
        now - window
    } else {
        now as int
    }
}

/// The time between two moments; none where the later one comes first.
pub open spec fn span(from: u128, to: u128) -> int {
    if to >= from {
        to - from
    } else {
        0
    }
}

/// The bytes and the time, in nanoseconds, that the speed is told from; `None`
/// where nothing comes in.
pub open spec fn measured(history: Seq<(u128, u64)>, now: u128) -> Option<(u64, u128)> {
    let oldest = history[0];
    let youngest = history.last();
    if history.len() < 2 || span(youngest.0, now) > STALL_TIME || span(oldest.0, youngest.0)
        < MIN_SPAN {
        None
    } else {
        Some(
            (
                if youngest.1 >= oldest.1 {
                    (youngest.1 - oldest.1) as u64
                } else {
                    0
                },
                span(oldest.0, youngest.0) as u128,
            ),
        )
    }
}

fn time_between(from: u128, to: u128) -> (r: u128)
    ensures
        r == span(from, to),
{
    if to >= from {
        to - from
    } else {
        0
    }
}

impl SpeedTracker {
    pub fn new(window_duration: u128) -> (tracker: Self)
        ensures
            tracker.history@.len() == 0,
            tracker.window_duration == window_duration,
    {
        SpeedTracker { history: VecDeque::new(), window_duration }
    }

    /// Notes how many bytes there are at time `now`.
    pub fn add_sample(&mut self, now: u128, bytes: u64)
        ensures
            final(self).history@ == pruned(
                old(self).history@.push((now, bytes)),
                threshold(now, old(self).window_duration),
            ),
            final(self).window_duration == old(self).window_duration,
    {
        self.history.push_back((now, bytes));
        self.prune(now);
    }

    /// Drops the samples that are too old.
    pub fn prune(&mut self, now: u128)
        ensures
            final(self).history@ == pruned(
                old(self).history@,
                threshold(now, old(self).window_duration),
            ),
            final(self).window_duration == old(self).window_duration,
    {
        let limit: u128 = if now >= self.window_duration {
            now - self.window_duration
        } else {
            now
        };
        while self.history.len() > 1 && self.history[0].0 < limit
            invariant
                limit == threshold(now, self.window_duration),
                self.window_duration == old(self).window_duration,
                pruned(self.history@, limit as int) == pruned(old(self).history@, limit as int),
            decreases self.history@.len(),
        {
            let ghost before = self.history@;
            let _ = self.history.pop_front();
            assert(self.history@ =~= before.skip(1));
        }
    }

    /// The bytes and the time, in nanoseconds, whose quotient is the speed at
    /// time `now`; `None` where nothing comes in.
    pub fn current_speed(&mut self, now: u128) -> (r: Option<(u64, u128)>)
        ensures
            final(self).history@ == pruned(
                old(self).history@,
                threshold(now, old(self).window_duration),
            ),
            final(self).window_duration == old(self).window_duration,
            r == measured(final(self).history@, now),
    {
        self.prune(now);
        let n: usize = self.history.len();
        if n < 2 {
            return None;
        }
        let oldest: (u128, u64) = self.history[0];
        let youngest: (u128, u64) = self.history[n - 1];
        if time_between(youngest.0, now) > STALL_TIME {
            return None;
        }
        let duration: u128 = time_between(oldest.0, youngest.0);
        if duration < MIN_SPAN {
            return None;
        }
        Some((youngest.1.saturating_sub(oldest.1), duration))
    }
}

/// Dropping old samples keeps the newest one, and of the others only those that
/// are not too old, where they stand in the order of time.
pub proof fn pruned_samples_are_recent(history: Seq<(u128, u64)>, limit: int)
    requires
        forall|a: int, b: int|
            0 <= a <= b < history.len() ==> (#[trigger] history[a]).0 <= (#[trigger] history[b]).0,
    ensures
        history.len() > 0 ==> pruned(history, limit).len() > 0 && pruned(history, limit).last()
            == history.last(),
        forall|k: int|
            0 <= k < pruned(history, limit).len() - 1 ==> (#[trigger] pruned(history, limit)[k]).0
                >= limit,
    decreases history.len(),
{
    if history.len() > 1 && history[0].0 < limit {
        let rest = history.skip(1);
        assert forall|a: int, b: int| 0 <= a <= b < rest.len() implies (#[trigger] rest[a]).0 <= (
        #[trigger] rest[b]).0 by {
            assert(history[a + 1].0 <= history[b + 1].0);
        }
        pruned_samples_are_recent(rest, limit);
    } else if history.len() > 1 {
        assert forall|k: int| 0 <= k < history.len() - 1 implies (#[trigger] history[k]).0
            >= limit by {
            assert(history[0].0 <= history[k].0);
        }
    }
}

/// Tells when the screen is updated.
pub struct Renderer {
    pub tracker: SpeedTracker,
    /// When the screen was last updated, in nanoseconds.
    pub last_update: u128,
    /// The progress that is to be shown, where there is any.
    pub latest: Option<DownloadProgress>,
    /// The progress has not been shown yet.
    pub needs_render: bool,
    pub last_phase: Option<DownloadPhase>,
}

impl Renderer {
    pub fn new(now: u128) -> (renderer: Self)
        ensures
            renderer.tracker.history@.len() == 0,
            renderer.tracker.window_duration == SPEED_WINDOW == 3_000_000_000,
            renderer.last_update == now,
            renderer.latest is None,
            !renderer.needs_render,
            renderer.last_phase is None,
    {
        Renderer {
            tracker: SpeedTracker::new(SPEED_WINDOW),
            last_update: now,
            latest: None,
            needs_render: false,
            last_phase: None,
        }
    }

    /// The progress is to be shown at once: it is the last, it is of another
    /// phase than the last one, or the screen has not been updated for a while.
    pub open spec fn is_urgent(self, progress: DownloadProgress, now: u128) -> bool {
        ||| progress.phase == DownloadPhase::Complete
        ||| self.last_phase != Some(progress.phase)
        ||| span(self.last_update, now) >= UI_UPDATE_INTERVAL
    }

    /// Takes news of the progress, and says whether to show it at once.
    pub fn receive(&mut self, progress: DownloadProgress, now: u128) -> (show: bool)
        ensures
            show == old(self).is_urgent(progress, now),
            final(self).latest == Some(progress),
            final(self).last_phase == Some(progress.phase),
            final(self).needs_render == !show,
            final(self).last_update == (if show {
                now
            } else {
                old(self).last_update
            }),
            final(self).tracker.window_duration == old(self).tracker.window_duration,
            final(self).tracker.history@ == (if progress.phase == DownloadPhase::Downloading {
                pruned(
                    old(self).tracker.history@.push((now, progress.downloaded_bytes)),
                    threshold(now, old(self).tracker.window_duration),
                )
            } else {
                old(self).tracker.history@
            }),
    {
        if progress.phase == DownloadPhase::Downloading {
            self.tracker.add_sample(now, progress.downloaded_bytes);
        }
        let same_phase = match self.last_phase {
            Some(phase) => phase == progress.phase,
            None => false,
        };
        let show = progress.phase == DownloadPhase::Complete || !same_phase || time_between(
            self.last_update,
            now,
        ) >= UI_UPDATE_INTERVAL;
        self.last_phase = Some(progress.phase);
        self.latest = Some(progress);
        self.needs_render = !show;
        if show {
            self.last_update = now;
        }
        show
    }
}

/// How many bytes are still to come, where a time can be told for them: the
/// download is not complete, something comes in, and less is there than the
/// whole.
pub open spec fn bytes_to_come(progress: DownloadProgress, speed: u64) -> Option<u64> {
    let total = match progress.total_bytes {
        Some(total) => total,
        None => progress.downloaded_bytes,
    };
    if progress.phase == DownloadPhase::Complete || speed == 0 || total
        <= progress.downloaded_bytes {
        None
    } else {
        Some((total - progress.downloaded_bytes) as u64)
    }
}

/// How many bytes are still to come, at a speed of so many whole bytes a
/// second.
pub fn remaining_bytes(progress: &DownloadProgress, speed: u64) -> (r: Option<u64>)
    ensures
        r == bytes_to_come(*progress, speed),
{
    let total: u64 = match progress.total_bytes {
        Some(total) => total,
        None => progress.downloaded_bytes,
    };
    if progress.phase == DownloadPhase::Complete || speed == 0 || total
        <= progress.downloaded_bytes {
        None
    } else {
        Some(total - progress.downloaded_bytes)
    }
}

/// The time that a download still takes: `eta` seconds where a time can be told
/// for the bytes to come.
pub open spec fn eta_text(
    progress: DownloadProgress,
    speed: u64,
    eta: u64,
    lang: Lang,
) -> Seq<char> {
    if speed == 0 {
        "--:--:--"@
    } else if bytes_to_come(progress, speed) is None {
        "0s"@
    } else {
        duration_text(eta as int, lang)
    }
}

/// The speed, in whole bytes a second, and the time that the download still
/// takes while it is not complete.
pub open spec fn speed_text(
    progress: DownloadProgress,
    speed: u64,
    eta: u64,
    lang: Lang,
) -> Seq<char> {
    let rate = size_text(as_float(speed as int)) + "/s"@;
    if progress.phase == DownloadPhase::Complete {
        rate
    } else {
        rate + " "@ + eta_text(progress, speed, eta, lang)
    }
}

/// The speed and the time that the download still takes.
pub fn speed_and_eta(progress: &DownloadProgress, speed: u64, eta: u64, lang: Lang) -> (text:
    String)
    ensures
        text@ == speed_text(*progress, speed, eta, lang),
{
    let mut text = format_bytes(speed);
    text.append("/s");
    if progress.phase == DownloadPhase::Complete {
        return text;
    }
    text.append(" ");
    if speed == 0 {
        text.append("--:--:--");
    } else if remaining_bytes(progress, speed).is_none() {
        text.append("0s");
    } else {
        text.append(format_duration(eta, lang).as_str());
    }
    text
}

/// The text beside the bar: the speed, and the bytes before it where the bar
/// does not know the whole.
pub open spec fn overall_text(progress: DownloadProgress, speed_and_eta: Seq<char>) -> Seq<char> {
    if progress.total_bytes is None {
        size_text(as_float(progress.downloaded_bytes as int)) + " | "@ + speed_and_eta
    } else {
        speed_and_eta
    }
}

/// The speed always stands at the end of the text beside the bar; the bytes that
/// are there stand before it exactly where the whole is not known.
pub proof fn bytes_stand_before_the_speed(
    progress: DownloadProgress,
    speed_and_eta: Seq<char>,
    total: u64,
)
    ensures
        progress.total_bytes == Some(total) ==> overall_text(progress, speed_and_eta)
            == speed_and_eta,
        progress.total_bytes is None ==> overall_text(progress, speed_and_eta) == size_text(
            as_float(progress.downloaded_bytes as int),
        ) + " | "@ + speed_and_eta,
{
}

/// The text beside the bar: the speed, and the bytes before it where the bar
/// does not know the whole.
pub fn overall_message(progress: &DownloadProgress, speed_and_eta: String) -> (text: String)
    ensures
        text@ == overall_text(*progress, speed_and_eta@),
{
    if progress.total_bytes.is_none() {
        let mut text = format_bytes(progress.downloaded_bytes);
        text.append(" | ");
        text.append(speed_and_eta.as_str());
        text
    } else {
        speed_and_eta
    }
}

/// Dropping old samples drops only those that are too old, and only from the
/// start: whatever is not older than the limit stays.
pub proof fn recent_samples_stay(history: Seq<(u128, u64)>, limit: int, k: int)
    requires
        0 <= k < history.len(),
        history[k].0 >= limit,
    ensures
        ({
            let dropped = history.len() - pruned(history, limit).len();
            &&& 0 <= dropped <= k
            &&& pruned(history, limit) == history.skip(dropped)
        }),
    decreases history.len(),
{
    if history.len() > 1 && history[0].0 < limit {
        let rest = history.skip(1);
        assert(rest[k - 1] == history[k]);
        recent_samples_stay(rest, limit, k - 1);
        let dropped = rest.len() - pruned(rest, limit).len();
        assert(rest.skip(dropped) =~= history.skip(dropped + 1));
    } else {
        assert(history.skip(0) =~= history);
    }
}

/// Samples count from one window before the present on.
pub proof fn window_ends_at_the_present(now: u128, window: u128)
    ensures
        now >= window ==> threshold(now, window) + window == now,
        now < window ==> threshold(now, window) == now,
        SPEED_WINDOW == 3_000_000_000,
{
}

/// The speed is told from the oldest to the newest sample: the bytes between
/// them, and the time between them. It is not told from fewer than two samples,
/// not where the newest is more than two seconds old, and not from samples less
/// than ten milliseconds apart.
pub proof fn speed_is_told_from_end_to_end(
    oldest: (u128, u64),
    between: Seq<(u128, u64)>,
    newest: (u128, u64),
    now: u128,
)
    requires
        oldest.0 <= newest.0 <= now,
        oldest.1 <= newest.1,
    ensures
        ({
            let history = seq![oldest] + between + seq![newest];
            let told = measured(history, now);
            &&& now - newest.0 > 2_000_000_000 ==> told is None
            &&& newest.0 - oldest.0 < 10_000_000 ==> told is None
            &&& now - newest.0 <= 2_000_000_000 && newest.0 - oldest.0 >= 10_000_000 ==> (
            told matches Some((bytes, time)) && oldest.1 + bytes == newest.1 && oldest.0 + time
                == newest.0)
        }),
        measured(seq![newest], now) is None,
        measured(Seq::empty(), now) is None,
{
    let history = seq![oldest] + between + seq![newest];
    assert(history[0] == oldest);
    assert(history.last() == newest);
}

/// Progress is shown at once where it is complete, where its phase is new, and
/// where the screen was last updated at least two hundred milliseconds ago, and
/// is kept back otherwise.
pub proof fn progress_is_shown_in_time(renderer: Renderer, progress: DownloadProgress, now: u128)
    requires
        now >= renderer.last_update,
    ensures
        progress.phase == DownloadPhase::Complete ==> renderer.is_urgent(progress, now),
        renderer.last_phase is None ==> renderer.is_urgent(progress, now),
        renderer.last_phase is Some && renderer.last_phase->0 != progress.phase
            ==> renderer.is_urgent(progress, now),
        now - renderer.last_update >= 200_000_000 ==> renderer.is_urgent(progress, now),
        progress.phase != DownloadPhase::Complete && renderer.last_phase == Some(progress.phase)
            && now - renderer.last_update < 200_000_000 ==> !renderer.is_urgent(progress, now),
{
}

/// The bytes that are there and those to come make up the whole; nothing is told
/// of a complete download, of one at a standstill, and of one whose whole is
/// there or not known.
pub proof fn bytes_to_come_complete_the_whole(progress: DownloadProgress, speed: u64, total: u64)
    ensures
        progress.total_bytes == Some(total) && total > progress.downloaded_bytes && speed > 0
            && progress.phase != DownloadPhase::Complete ==> bytes_to_come(progress, speed) is Some
            && progress.downloaded_bytes + bytes_to_come(progress, speed)->0 == total,
        progress.phase == DownloadPhase::Complete ==> bytes_to_come(progress, speed) is None,
        speed == 0 ==> bytes_to_come(progress, speed) is None,
        progress.total_bytes is None ==> bytes_to_come(progress, speed) is None,
        progress.total_bytes == Some(total) && total <= progress.downloaded_bytes ==> bytes_to_come(
            progress,
            speed,
        ) is None,
{
}

/// The speed is always shown first, and the time behind it unless the download
/// is complete: as dashes at a standstill, as none where nothing is to come, and
/// else as it was reckoned.
pub proof fn speed_comes_before_the_time(
    progress: DownloadProgress,
    speed: u64,
    eta: u64,
    lang: Lang,
)
    ensures
        ({
            let rate = size_text(as_float(speed as int)) + "/s"@;
            let shown = speed_text(progress, speed, eta, lang);
            let running = progress.phase != DownloadPhase::Complete;
            &&& !running ==> shown == rate
            &&& running && speed == 0 ==> shown == rate + " "@ + "--:--:--"@
            &&& running && speed > 0 && (progress.total_bytes is None || progress.total_bytes->0
                <= progress.downloaded_bytes) ==> shown == rate + " "@ + "0s"@
            &&& running && speed > 0 && progress.total_bytes is Some && progress.total_bytes->0
                > progress.downloaded_bytes ==> shown == rate + " "@ + duration_text(
                eta as int,
                lang,
            )
        }),
{
}

} // verus!
