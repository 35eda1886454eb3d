//! A download over several connections: the chunks that wait, the workers that
//! fetch them, and the record that lets it be resumed.

use std::collections::VecDeque;
use vstd::prelude::*;

use crate::chunks::{
    build_segments, chunk_count, chunks_needed, completed_total, count_finished, finished_bytes,
    finished_count, lemma_chunks_needed, lemma_finish_one, lemma_finished_count,
    lemma_missing_count, lemma_missing_members, lemma_segment_at, missing_segments,
    nothing_finished_is_no_bytes, segment_at,
};
use crate::error::{is_retryable, DlError, Result};
use crate::http::probe::HttpProbe;
use crate::http::scaler::{
    passed, DynamicScaler, ScalerAction, ScalerEvent, SpeedReading, MIN_WINDOW,
};
use crate::text::{as_text, copied, string_view};
use crate::types::{
    changed_resource_is_not_described, unchanged_resource_is_described, DownloadKind,
    DownloadOptions, DownloadPhase, DownloadProgress, DownloadSummary, InlineDownloadState,
    Segment, STATE_VERSION,
};

verus! {

/// The number of workers that a download starts with when the options name
/// none.
pub const INITIAL_WORKERS: usize = 4;

/// What is fetched, and how it is cut.
#[derive(Debug)]
pub struct Target {
    pub url: String,
    pub output_path: String,
    pub total_size: u64,
    pub chunk_size: u64,
    pub total_chunks: usize,
    pub etag: Option<String>,
    pub last_modified: Option<String>,
    /// The time between two records of the state, in nanoseconds.
    pub flush_interval: u128,
    /// A record of the state is kept behind the bytes of the file.
    pub keeps_record: bool,
    /// An earlier download is taken up.
    pub resumed: bool,
}

/// The state that the workers share.
struct Work {
    target: Target,
    queue: VecDeque<Segment>,
    completed: Vec<bool>,
    completed_count: usize,
    downloaded: u64,
    active_workers: usize,
    extra_workers_to_stop: usize,
    last_flush: u128,
    is_dynamic: bool,
    scaler: DynamicScaler,
    running: Ghost<nat>,
    holding: Ghost<nat>,
}

/// A download that several workers share.
pub struct ParallelDownload {
    work: Work,
}

/// What the state of a download reads.
#[verifier::ext_equal]
pub struct ParallelView {
    pub target: Target,
    /// The segments that no worker has taken yet.
    pub queue: Seq<Segment>,
    pub completed: Seq<bool>,
    pub completed_count: usize,
    /// How many bytes have come in, modulo the range of the counter. The bytes
    /// of a segment that is tried again count again.
    pub downloaded: u64,
    pub active_workers: usize,
    /// How many workers are asked to stop.
    pub extra_workers_to_stop: usize,
    /// When the state was last recorded, in nanoseconds.
    pub last_flush: u128,
    /// The number of workers follows the measured speed.
    pub is_dynamic: bool,
    pub scaler: DynamicScaler,
    /// How many workers run or are about to be started.
    pub running: nat,
    /// How many of them have taken a segment and not completed it.
    pub holding: nat,
}

impl View for Work {
    type V = ParallelView;

    closed spec fn view(&self) -> ParallelView {
        ParallelView {
            target: self.target,
            queue: self.queue@,
            completed: self.completed@,
            completed_count: self.completed_count,
            downloaded: self.downloaded,
            active_workers: self.active_workers,
            extra_workers_to_stop: self.extra_workers_to_stop,
            last_flush: self.last_flush,
            is_dynamic: self.is_dynamic,
            scaler: self.scaler,
            running: self.running@,
            holding: self.holding@,
        }
    }
}

impl View for ParallelDownload {
    type V = ParallelView;

    closed spec fn view(&self) -> ParallelView {
        self.work@
    }
}

/// A file of this size can be cut into chunks of this size.
pub open spec fn can_cut(total_size: u64, chunk_size: u64) -> bool {
    &&& total_size > 0 ==> chunk_size > 0
    &&& chunks_needed(total_size as int, chunk_size as int) <= usize::MAX
}

impl Target {
    pub open spec fn is_sound(self) -> bool {
        &&& can_cut(self.total_size, self.chunk_size)
        &&& self.total_chunks == chunks_needed(self.total_size as int, self.chunk_size as int)
    }

    /// The segment of chunk `index`.
    pub open spec fn segment(self, index: int) -> Segment {
        segment_at(index, self.total_size as int, self.chunk_size as int)
    }
}

/// What a worker does next.
#[derive(Debug, Clone, Copy, PartialEq, Eq, Structural)]
pub enum WorkerStep {
    /// It ends, as it was asked to.
    Stop,
    /// It ends, since no segment is left.
    Drained,
    Fetch(Segment),
}

/// What follows from a completed segment.
#[derive(Debug, Clone, Copy, PartialEq, Eq, Structural)]
pub struct Completion {
    pub completed_count: usize,
    /// It was the last one.
    pub is_final: bool,
    /// The state is to be recorded.
    pub should_flush: bool,
}

/// Something that the download waits for has happened.
pub enum ParallelEvent {
    WorkerEnded,
    WorkerFailed(DlError),
    /// No worker is left.
    AllEnded,
    /// The speed since the last measurement.
    Tick { now: u128, reading: SpeedReading },
    /// The user asks to stop.
    Interrupt,
}

/// What the download does about it.
pub enum ParallelAction {
    Wait,
    /// Start `count` workers, numbered from `start_id` on.
    Spawn { count: usize, start_id: usize },
    /// Stop all workers and fail.
    Abort(DlError),
    /// Stop all workers, record the state, and fail.
    SaveAndAbort(DlError),
    /// Every chunk is there: cut the file to this length, which takes the
    /// record away.
    Finish(u64),
}

/// How a download begins.
#[derive(Debug, Clone, Copy, PartialEq, Eq, Structural)]
pub enum Launch {
    /// Every chunk is there: cut the file to this length, which takes the
    /// record away.
    Finish(u64),
    /// Start this many workers, numbered from zero on.
    Spawn(usize),
}

/// Time that has passed is at least `interval`.
pub open spec fn is_due(last: u128, now: u128, interval: u128) -> bool {
    if now >= last {
        now - last >= interval
    } else {
        interval == 0
    }
}

/// The record is one that this download can take up.
pub open spec fn is_resumable(
    existing: Option<InlineDownloadState>,
    url: Seq<char>,
    options: DownloadOptions,
    total_size: u64,
    probe: HttpProbe,
) -> bool {
    &&& options.resume
    &&& existing matches Some(state)
    &&& state.describes(
        DownloadKind::Http,
        url,
        total_size,
        string_view(probe.etag),
        string_view(probe.last_modified),
    )
    &&& state.chunk_size == options.chunk_size
    &&& state.completed_chunks@.len() == chunks_needed(
        total_size as int,
        options.chunk_size as int,
    )
}

/// The error tells of an interruption by the user.
pub open spec fn is_interruption(error: DlError) -> bool {
    error matches DlError::Io(text) && text@ == "用户中断了下载（Ctrl+C）"@
}

/// The error that tells of an interruption by the user.
pub fn interruption() -> (error: DlError)
    ensures
        is_interruption(error),
{
    DlError::Io("用户中断了下载（Ctrl+C）".to_owned())
}

/// The number of workers that a download of `total_chunks` chunks starts with:
/// no more than there are chunks, and at least one.
pub open spec fn initial_workers(connections: Option<usize>, total_chunks: usize) -> usize {
    let wanted = match connections {
        Some(n) => n,
        None => INITIAL_WORKERS,
    };
    let useful = if wanted <= total_chunks {
        wanted
    } else {
        total_chunks
    };
    if useful >= 1 {
        useful
    } else {
        1
    }
}

fn no_chunks(n: usize) -> (completed: Vec<bool>)
    ensures
        completed@ == Seq::new(n as nat, |i: int| false),
{
    let mut completed: Vec<bool> = Vec::new();
    while completed.len() < n
        invariant
            completed@.len() <= n,
            forall|i: int| 0 <= i < completed@.len() ==> !#[trigger] completed@[i],
        decreases n - completed@.len(),
    {
        completed.push(false);
    }
    assert(completed@ =~= Seq::new(n as nat, |i: int| false));
    completed
}

fn queue_of(segments: &Vec<Segment>) -> (queue: VecDeque<Segment>)
    ensures
        queue@ == segments@,
{
    let mut queue: VecDeque<Segment> = VecDeque::new();
    let mut k: usize = 0;
    while k < segments.len()
        invariant
            k <= segments@.len(),
            queue@ == segments@.take(k as int),
        decreases segments@.len() - k,
    {
        queue.push_back(segments[k]);
        k += 1;
        assert(queue@ =~= segments@.take(k as int));
    }
    assert(queue@ =~= segments@);
    queue
}

impl ParallelView {
    /// Chunk `index` is in the hands of a worker: it is not completed, and it
    /// does not wait.
    pub open spec fn is_in_flight(self, index: int) -> bool {
        &&& 0 <= index < self.completed.len()
        &&& !self.completed[index]
        &&& forall|k: int| 0 <= k < self.queue.len() ==> (#[trigger] self.queue[k]).index != index
    }

    /// The segments that wait are those of different chunks, in the order of
    /// the file, none of them completed.
    pub open spec fn queue_is_sound(self) -> bool {
        &&& forall|k: int|
            0 <= k < self.queue.len() ==> {
                let index = (#[trigger] self.queue[k]).index;
                &&& index < self.completed.len()
                &&& !self.completed[index as int]
                &&& self.queue[k] == self.target.segment(index as int)
            }
        &&& forall|a: int, b: int|
            0 <= a < b < self.queue.len() ==> (#[trigger] self.queue[a]).index < (
            #[trigger] self.queue[b]).index
    }

    /// Each chunk is completed, waits, or is held by a worker, and while a
    /// segment waits, a worker runs that nothing asks to stop.
    pub open spec fn is_sound(self) -> bool {
        &&& self.target.is_sound()
        &&& self.completed.len() == self.target.total_chunks
        &&& self.completed_count == finished_count(self.completed)
        &&& self.queue_is_sound()
        &&& self.completed_count + self.queue.len() + self.holding == self.target.total_chunks
        &&& self.holding <= self.running <= self.scaler.next_worker_id
        &&& self.scaler.is_sound()
        &&& self.queue.len() > 0 ==> self.running == self.extra_workers_to_stop
            + self.scaler.current_worker_count
    }

    /// Every chunk is completed.
    pub open spec fn is_done(self) -> bool {
        self.completed_count == self.target.total_chunks
    }

    /// This is the state that a download begins with. What an earlier one has
    /// completed is taken over if its record is one of the same resource, cut
    /// into chunks of the same size.
    pub open spec fn is_begun_by(
        self,
        url: String,
        output_path: String,
        options: DownloadOptions,
        probe: HttpProbe,
        existing: Option<InlineDownloadState>,
        now: u128,
    ) -> bool {
        let resumed = is_resumable(
            existing,
            url@,
            options,
            self.target.total_size,
            probe,
        );
        let total = self.target.total_size as int;
        let chunk = options.chunk_size as int;
        let workers = initial_workers(options.connections, self.target.total_chunks);
        &&& probe.total_size == Some(self.target.total_size)
        &&& self.target == (Target {
            url,
            output_path,
            total_size: self.target.total_size,
            chunk_size: options.chunk_size,
            total_chunks: chunks_needed(total, chunk) as usize,
            etag: probe.etag,
            last_modified: probe.last_modified,
            flush_interval: options.metadata_flush_interval,
            keeps_record: options.resume,
            resumed,
        })
        &&& self.completed == (if resumed {
            existing->0.completed_chunks@
        } else {
            Seq::new(chunks_needed(total, chunk) as nat, |i: int| false)
        })
        &&& self.queue == missing_segments(
            self.completed,
            chunks_needed(total, chunk) as nat,
            total,
            chunk,
        )
        &&& self.completed_count == finished_count(self.completed)
        &&& self.downloaded == finished_bytes(self.completed, total, chunk)
        &&& self.active_workers == 0
        &&& self.extra_workers_to_stop == 0
        &&& self.last_flush == now
        &&& self.is_dynamic == options.connections is None
        &&& self.scaler == (DynamicScaler {
            min_workers: 1,
            max_workers: 32,
            current_worker_count: workers,
            next_worker_id: workers,
            last_bytes: self.downloaded,
            last_time: now,
            last_speed: None,
            consecutive_no_improvement: 0,
        })
        &&& self.running == (if self.is_done() {
            0
        } else {
            workers as nat
        })
        &&& self.holding == 0
    }

    /// What the download begins with: the workers, or the end where every chunk
    /// is there.
    pub open spec fn launch_of(self) -> Launch {
        if self.is_done() {
            Launch::Finish(self.target.total_size)
        } else {
            Launch::Spawn(self.scaler.current_worker_count)
        }
    }

    /// The state once the time is counted from `now` on.
    pub open spec fn launched(self, now: u128) -> Self {
        ParallelView {
            last_flush: now,
            scaler: DynamicScaler { last_time: now, ..self.scaler },
            ..self
        }
    }

    /// The state after the next step of a worker that holds no segment, and the
    /// step. A worker that is asked to stop ends; otherwise it takes the first
    /// segment that waits, if there is one.
    pub open spec fn stepped(self) -> (Self, WorkerStep) {
        if self.extra_workers_to_stop > 0 {
            (
                ParallelView {
                    extra_workers_to_stop: (self.extra_workers_to_stop - 1) as usize,
                    running: (self.running - 1) as nat,
                    ..self
                },
                WorkerStep::Stop,
            )
        } else if self.queue.len() == 0 {
            (ParallelView { running: (self.running - 1) as nat, ..self }, WorkerStep::Drained)
        } else {
            (
                ParallelView {
                    queue: self.queue.skip(1),
                    active_workers: self.active_workers.wrapping_add(1),
                    holding: self.holding + 1,
                    ..self
                },
                WorkerStep::Fetch(self.queue[0]),
            )
        }
    }

    /// The state after the segment of chunk `index` is completed, and what
    /// follows. Where a record is kept, it is due after the last segment, and
    /// otherwise when the last record is as old as the interval between
    /// records.
    pub open spec fn completed_by(self, index: int, now: u128) -> (Self, Completion) {
        let count = (self.completed_count + 1) as usize;
        let is_final = count == self.target.total_chunks;
        let should_flush = self.target.keeps_record && (is_due(
            self.last_flush,
            now,
            self.target.flush_interval,
        ) || is_final);
        (
            ParallelView {
                completed: self.completed.update(index, true),
                completed_count: count,
                holding: (self.holding - 1) as nat,
                last_flush: if should_flush {
                    now
                } else {
                    self.last_flush
                },
                ..self
            },
            Completion { completed_count: count, is_final, should_flush },
        )
    }

    /// What a tick is to the scaler.
    pub open spec fn tick_event(self, now: u128, reading: SpeedReading) -> ScalerEvent {
        ScalerEvent {
            current_bytes: self.downloaded,
            queue_is_empty: self.queue.len() == 0,
            now,
            reading,
        }
    }

    /// The change of the number of workers that an event brings: a tick brings
    /// one where the number follows the speed.
    pub open spec fn change(self, event: ParallelEvent) -> Option<ScalerAction> {
        match event {
            ParallelEvent::Tick { now, reading } if self.is_dynamic => self.scaler.after(
                self.tick_event(now, reading),
            ).1,
            _ => None,
        }
    }

    /// The state after an event.
    pub open spec fn after(self, event: ParallelEvent) -> Self {
        let noted = match event {
            ParallelEvent::Tick { now, reading } if self.is_dynamic => ParallelView {
                scaler: self.scaler.after(self.tick_event(now, reading)).0,
                ..self
            },
            _ => self,
        };
        match self.change(event) {
            Some(ScalerAction::ScaleUp { count, .. }) => ParallelView {
                running: self.running + count as nat,
                ..noted
            },
            Some(ScalerAction::ScaleDown { count }) => ParallelView {
                extra_workers_to_stop: (self.extra_workers_to_stop + count) as usize,
                ..noted
            },
            None => noted,
        }
    }

    /// The action is the answer to the event. A failed worker ends the
    /// download, and so does an interruption, once the state is recorded where
    /// a record is kept.
    pub open spec fn is_answer(self, event: ParallelEvent, action: ParallelAction) -> bool {
        match event {
            ParallelEvent::WorkerEnded => action is Wait,
            ParallelEvent::WorkerFailed(error) => action == ParallelAction::Abort(error),
            ParallelEvent::AllEnded => action == ParallelAction::Finish(self.target.total_size),
            ParallelEvent::Interrupt => if self.target.keeps_record {
                action matches ParallelAction::SaveAndAbort(error) && is_interruption(error)
            } else {
                action matches ParallelAction::Abort(error) && is_interruption(error)
            },
            ParallelEvent::Tick { .. } => match self.change(event) {
                Some(ScalerAction::ScaleUp { count, start_id }) => action
                    == (ParallelAction::Spawn { count, start_id }),
                _ => action is Wait,
            },
        }
    }
}

impl Work {
    /// The state of a download of nothing.
    fn idle() -> (work: Self)
        ensures
            work@.is_sound(),
    {
        let work = Work {
            target: Target {
                url: String::new(),
                output_path: String::new(),
                total_size: 0,
                chunk_size: 0,
                total_chunks: 0,
                etag: None,
                last_modified: None,
                flush_interval: 0,
                keeps_record: false,
                resumed: false,
            },
            queue: VecDeque::new(),
            completed: Vec::new(),
            completed_count: 0,
            downloaded: 0,
            active_workers: 0,
            extra_workers_to_stop: 0,
            last_flush: 0,
            is_dynamic: false,
            scaler: DynamicScaler::new(1, 0, 0),
            running: Ghost(0),
            holding: Ghost(0),
        };
        work
    }

    /// Takes the first segment that waits.
    fn pop_segment(&mut self) -> (segment: Option<Segment>)
        ensures
            match segment {
                Some(segment) => old(self)@.queue.len() > 0 && segment == old(self)@.queue[0]
                    && final(self)@ == (ParallelView {
                    queue: old(self)@.queue.skip(1),
                    ..old(self)@
                }),
                None => old(self)@.queue.len() == 0 && final(self)@ == old(self)@,
            },
    {
        self.queue.pop_front()
    }

    fn next_step(&mut self) -> (step: WorkerStep)
        requires
            old(self)@.is_sound(),
            old(self)@.holding < old(self)@.running,
        ensures
            (final(self)@, step) == old(self)@.stepped(),
            final(self)@.is_sound(),
            step matches WorkerStep::Fetch(segment) ==> final(self)@.is_in_flight(
                segment.index as int,
            ),
    {
        if self.extra_workers_to_stop > 0 {
            self.extra_workers_to_stop = self.extra_workers_to_stop - 1;
            self.running = Ghost((self.running@ - 1) as nat);
            return WorkerStep::Stop;
        }
        let ghost before = self@;
        match self.pop_segment() {
            None => {
                self.running = Ghost((self.running@ - 1) as nat);
                WorkerStep::Drained
            },
            Some(segment) => {
                self.active_workers = self.active_workers.wrapping_add(1);
                self.holding = Ghost(self.holding@ + 1);
                proof {
                    let queue = self@.queue;
                    assert forall|k: int| 0 <= k < queue.len() implies (#[trigger] queue[k])
                        == before.queue[k + 1] && queue[k].index != segment.index by {
                        assert(before.queue[0].index < before.queue[k + 1].index);
                    }
                    assert forall|a: int, b: int| 0 <= a < b < queue.len() implies (
                    #[trigger] queue[a]).index < (#[trigger] queue[b]).index by {
                        assert(before.queue[a + 1].index < before.queue[b + 1].index);
                    }
                }
                WorkerStep::Fetch(segment)
            },
        }
    }

    fn complete_segment(&mut self, index: usize, now: u128) -> (completion: Completion)
        requires
            old(self)@.is_sound(),
            old(self)@.is_in_flight(index as int),
            old(self)@.holding > 0,
        ensures
            (final(self)@, completion) == old(self)@.completed_by(index as int, now),
            final(self)@.is_sound(),
    {
        proof {
            lemma_finish_one(self.completed@, index as int);
        }
        self.completed.set(index, true);
        self.completed_count = self.completed_count + 1;
        self.holding = Ghost((self.holding@ - 1) as nat);
        let is_final = self.completed_count == self.target.total_chunks;
        let elapsed: u128 = if now >= self.last_flush {
            now - self.last_flush
        } else {
            0
        };
        let should_flush = self.target.keeps_record && (elapsed >= self.target.flush_interval
            || is_final);
        if should_flush {
            self.last_flush = now;
        }
        Completion { completed_count: self.completed_count, is_final, should_flush }
    }

    fn react(&mut self, event: ParallelEvent) -> (action: ParallelAction)
        requires
            old(self)@.is_sound(),
            event is Tick ==> old(self)@.scaler.has_room(),
        ensures
            final(self)@ == old(self)@.after(event),
            old(self)@.is_answer(event, action),
            final(self)@.is_sound(),
    {
        match event {
            ParallelEvent::WorkerEnded => ParallelAction::Wait,
            ParallelEvent::WorkerFailed(error) => ParallelAction::Abort(error),
            ParallelEvent::AllEnded => ParallelAction::Finish(self.target.final_len()),
            ParallelEvent::Interrupt => if self.target.keeps_record {
                ParallelAction::SaveAndAbort(interruption())
            } else {
                ParallelAction::Abort(interruption())
            },
            ParallelEvent::Tick { now, reading } => {
                if !self.is_dynamic {
                    return ParallelAction::Wait;
                }
                let queue_is_empty = self.queue.len() == 0;
                match self.scaler.update(self.downloaded, queue_is_empty, now, reading) {
                    Some(ScalerAction::ScaleUp { count, start_id }) => {
                        self.running = Ghost((self.running@ + count) as nat);
                        ParallelAction::Spawn { count, start_id }
                    },
                    Some(ScalerAction::ScaleDown { count }) => {
                        self.extra_workers_to_stop = self.extra_workers_to_stop + count;
                        ParallelAction::Wait
                    },
                    None => ParallelAction::Wait,
                }
            },
        }
    }
}

impl ParallelDownload {
    #[verifier::type_invariant]
    spec fn is_kept_sound(self) -> bool {
        self.work@.is_sound()
    }

    /// Begins a download. What an earlier one has completed is taken over if
    /// its record is one of the same resource, cut into chunks of the same
    /// size. A download that may not be resumed neither reads a record nor
    /// keeps one.
    pub fn start(
        url: String,
        output_path: String,
        options: &DownloadOptions,
        probe: HttpProbe,
        existing: Option<InlineDownloadState>,
        now: u128,
    ) -> (r: Result<Self>)
        requires
            probe.total_size matches Some(total_size) ==> can_cut(total_size, options.chunk_size),
        ensures
            match r {
                Ok(download) => {
                    let begun = download@;
                    let chunks = begun.target.total_chunks;
                    &&& begun.is_begun_by(url, output_path, *options, probe, existing, now)
                    &&& begun.is_sound()
                    &&& (options.connections is Some && 1 <= options.connections->0 <= chunks)
                        ==> begun.scaler.current_worker_count == options.connections->0
                    &&& (options.connections is Some && 1 <= chunks < options.connections->0)
                        ==> begun.scaler.current_worker_count == chunks
                    &&& (options.connections is None && chunks >= 4)
                        ==> begun.scaler.current_worker_count == 4
                    &&& (options.connections is None && 1 <= chunks < 4)
                        ==> begun.scaler.current_worker_count == chunks
                },
                Err(error) => probe.total_size is None && (error matches DlError::InvalidResponse(
                    text,
                ) && text@ == "缺少 Content-Length 响应头"@),
            },
    {
        let total_size: u64 = match probe.total_size {
            Some(total_size) => total_size,
            None => {
                return Err(DlError::InvalidResponse("缺少 Content-Length 响应头".to_owned()));
            },
        };
        let chunk_size: u64 = options.chunk_size;
        let total_chunks: usize = chunk_count(total_size, chunk_size);
        let mut resumed = false;
        let mut completed: Vec<bool> = no_chunks(total_chunks);
        if options.resume {
            if let Some(state) = existing {
                if state.is_compatible_with(
                    DownloadKind::Http,
                    url.as_str(),
                    total_size,
                    chunk_size,
                    as_text(&probe.etag),
                    as_text(&probe.last_modified),
                ) && state.completed_chunks.len() == total_chunks {
                    resumed = true;
                    completed = state.completed_chunks;
                }
            }
        }
        let downloaded: u64 = completed_total(completed.as_slice(), total_size, chunk_size);
        let completed_count: usize = count_finished(completed.as_slice());
        let segments = build_segments(total_size, chunk_size, completed.as_slice());
        let queue = queue_of(&segments);
        let workers: usize = {
            let wanted: usize = match options.connections {
                Some(n) => n,
                None => INITIAL_WORKERS,
            };
            let useful: usize = if wanted <= total_chunks {
                wanted
            } else {
                total_chunks
            };
            if useful >= 1 {
                useful
            } else {
                1
            }
        };
        proof {
            lemma_missing_count(
                completed@,
                total_chunks as nat,
                total_size as int,
                chunk_size as int,
            );
            assert(completed@.take(total_chunks as int) =~= completed@);
            if total_size > 0 {
                lemma_missing_members(
                    completed@,
                    total_chunks as nat,
                    total_size as int,
                    chunk_size as int,
                );
            }
        }
        let work = Work {
            target: Target {
                url,
                output_path,
                total_size,
                chunk_size,
                total_chunks,
                etag: probe.etag,
                last_modified: probe.last_modified,
                flush_interval: options.metadata_flush_interval,
                keeps_record: options.resume,
                resumed,
            },
            queue,
            completed,
            completed_count,
            downloaded,
            active_workers: 0,
            extra_workers_to_stop: 0,
            last_flush: now,
            is_dynamic: options.connections.is_none(),
            scaler: DynamicScaler::new(workers, downloaded, now),
            running: Ghost(
                if completed_count == total_chunks {
                    0
                } else {
                    workers as nat
                },
            ),
            holding: Ghost(0),
        };
        Ok(ParallelDownload { work })
    }

    /// What is fetched, and how it is cut.
    pub fn target(&self) -> (target: &Target)
        ensures
            *target == self@.target,
    {
        &self.work.target
    }

    /// The number of workers, and the speed that it is judged by.
    pub fn scaler(&self) -> (scaler: DynamicScaler)
        ensures
            scaler == self@.scaler,
    {
        self.work.scaler
    }

    /// Whether every chunk is completed.
    pub fn is_complete(&self) -> (r: bool)
        ensures
            r == self@.is_done(),
            r == (forall|i: int| 0 <= i < self@.completed.len() ==> #[trigger] self@.completed[i]),
    {
        proof {
            use_type_invariant(self);
            lemma_done(self@);
        }
        self.work.completed_count == self.work.target.total_chunks
    }

    /// Begins to count the time, and says what to begin with: the workers, or
    /// the end where every chunk is there.
    pub fn launch(&mut self, now: u128) -> (launch: Launch)
        ensures
            final(self)@ == old(self)@.launched(now),
            final(self)@.is_sound(),
            launch == old(self)@.launch_of(),
    {
        proof {
            use_type_invariant(&*self);
        }
        self.work.last_flush = now;
        self.work.scaler.last_time = now;
        if self.work.completed_count == self.work.target.total_chunks {
            Launch::Finish(self.work.target.final_len())
        } else {
            Launch::Spawn(self.work.scaler.current_worker_count)
        }
    }

    /// The next step of a worker that holds no segment.
    pub fn next_step(&mut self) -> (step: WorkerStep)
        requires
            old(self)@.holding < old(self)@.running,
        ensures
            (final(self)@, step) == old(self)@.stepped(),
            final(self)@.is_sound(),
            step matches WorkerStep::Fetch(segment) ==> final(self)@.is_in_flight(
                segment.index as int,
            ) && segment == final(self)@.target.segment(segment.index as int),
    {
        proof {
            use_type_invariant(&*self);
        }
        let mut work = Work::idle();
        std::mem::swap(&mut work, &mut self.work);
        let step = work.next_step();
        self.work = work;
        step
    }

    /// Notes that a worker is done with its segment, for better or worse.
    pub fn settle(&mut self)
        ensures
            final(self)@ == (ParallelView {
                active_workers: old(self)@.active_workers.wrapping_sub(1),
                ..old(self)@
            }),
            final(self)@.is_sound(),
    {
        proof {
            use_type_invariant(&*self);
        }
        self.work.active_workers = self.work.active_workers.wrapping_sub(1);
    }

    /// Notes that `len` bytes have come in, and returns how many there are.
    pub fn record_bytes(&mut self, len: usize) -> (downloaded: u64)
        ensures
            downloaded == old(self)@.downloaded.wrapping_add(len as u64),
            final(self)@ == (ParallelView { downloaded, ..old(self)@ }),
            final(self)@.is_sound(),
    {
        proof {
            use_type_invariant(&*self);
        }
        self.work.downloaded = self.work.downloaded.wrapping_add(len as u64);
        self.work.downloaded
    }

    /// Notes that a worker has completed the segment of chunk `index`.
    pub fn complete_segment(&mut self, index: usize, now: u128) -> (completion: Completion)
        requires
            old(self)@.is_in_flight(index as int),
            old(self)@.holding > 0,
        ensures
            (final(self)@, completion) == old(self)@.completed_by(index as int, now),
            final(self)@.is_sound(),
    {
        proof {
            use_type_invariant(&*self);
        }
        let mut work = Work::idle();
        std::mem::swap(&mut work, &mut self.work);
        let completion = work.complete_segment(index, now);
        self.work = work;
        completion
    }

    /// The bytes that came in since the speed was last measured, and the time
    /// that this took; `None` where the speed does not matter or it is too
    /// early to measure it.
    pub fn speed_window(&self, now: u128) -> (r: Option<(u64, u128)>)
        ensures
            match r {
                Some((bytes, elapsed)) => {
                    &&& self@.is_dynamic
                    &&& elapsed == passed(self@.scaler.last_time, now)
                    &&& elapsed >= MIN_WINDOW
                    &&& bytes == (if self@.downloaded >= self@.scaler.last_bytes {
                        self@.downloaded - self@.scaler.last_bytes
                    } else {
                        0
                    })
                },
                None => !self@.is_dynamic || passed(self@.scaler.last_time, now) < MIN_WINDOW,
            },
    {
        if self.work.is_dynamic {
            self.work.scaler.window(self.work.downloaded, now)
        } else {
            None
        }
    }

    /// Decides what to do about an event.
    pub fn react(&mut self, event: ParallelEvent) -> (action: ParallelAction)
        requires
            event is Tick ==> old(self)@.scaler.has_room(),
        ensures
            final(self)@ == old(self)@.after(event),
            old(self)@.is_answer(event, action),
            final(self)@.is_sound(),
    {
        proof {
            use_type_invariant(&*self);
        }
        let mut work = Work::idle();
        std::mem::swap(&mut work, &mut self.work);
        let action = work.react(event);
        self.work = work;
        action
    }

    /// The record of the download at time `now`.
    pub fn state_at(&self, now: u64) -> (state: InlineDownloadState)
        ensures
            state.version == STATE_VERSION,
            state.kind == DownloadKind::Http,
            state.source == self@.target.url,
            state.total_size == self@.target.total_size,
            state.chunk_size == self@.target.chunk_size,
            state.completed_chunks@ == self@.completed,
            state.etag == self@.target.etag,
            state.last_modified == self@.target.last_modified,
            state.updated_at_unix_secs == now,
    {
        InlineDownloadState::new_at(
            DownloadKind::Http,
            self.work.target.url.clone(),
            self.work.target.total_size,
            self.work.target.chunk_size,
            self.work.completed.clone(),
            copied(&self.work.target.etag),
            copied(&self.work.target.last_modified),
            now,
        )
    }

    /// The record of the download at the present time.
    pub fn state(&self) -> (state: InlineDownloadState)
        ensures
            state.version == STATE_VERSION,
            state.kind == DownloadKind::Http,
            state.source == self@.target.url,
            state.total_size == self@.target.total_size,
            state.chunk_size == self@.target.chunk_size,
            state.completed_chunks@ == self@.completed,
            state.etag == self@.target.etag,
            state.last_modified == self@.target.last_modified,
    {
        InlineDownloadState::new(
            DownloadKind::Http,
            self.work.target.url.clone(),
            self.work.target.total_size,
            self.work.target.chunk_size,
            self.work.completed.clone(),
            copied(&self.work.target.etag),
            copied(&self.work.target.last_modified),
        )
    }

    /// How far the download has come.
    pub fn progress(&self, phase: DownloadPhase) -> (progress: DownloadProgress)
        ensures
            progress == (DownloadProgress {
                kind: DownloadKind::Http,
                phase,
                source: self@.target.url,
                output_path: self@.target.output_path,
                downloaded_bytes: self@.downloaded,
                total_bytes: Some(self@.target.total_size),
                active_workers: self@.active_workers,
                completed_chunks: Some(self@.completed_count),
                total_chunks: Some(self@.target.total_chunks),
            }),
    {
        DownloadProgress {
            kind: DownloadKind::Http,
            phase,
            source: self.work.target.url.clone(),
            output_path: self.work.target.output_path.clone(),
            downloaded_bytes: self.work.downloaded,
            total_bytes: Some(self.work.target.total_size),
            active_workers: self.work.active_workers,
            completed_chunks: Some(self.work.completed_count),
            total_chunks: Some(self.work.target.total_chunks),
        }
    }

    /// What a download that has all its bytes came to.
    pub fn summary(&self) -> (summary: DownloadSummary)
        ensures
            summary == self@.target.result(),
    {
        self.work.target.summary()
    }
}

impl Target {
    /// The progress of a download that has all its bytes.
    pub fn closing_progress(&self, phase: DownloadPhase) -> (progress: DownloadProgress)
        ensures
            progress == (DownloadProgress {
                kind: DownloadKind::Http,
                phase,
                source: self.url,
                output_path: self.output_path,
                downloaded_bytes: self.total_size,
                total_bytes: Some(self.total_size),
                active_workers: 0,
                completed_chunks: Some(self.total_chunks),
                total_chunks: Some(self.total_chunks),
            }),
    {
        DownloadProgress {
            kind: DownloadKind::Http,
            phase,
            source: self.url.clone(),
            output_path: self.output_path.clone(),
            downloaded_bytes: self.total_size,
            total_bytes: Some(self.total_size),
            active_workers: 0,
            completed_chunks: Some(self.total_chunks),
            total_chunks: Some(self.total_chunks),
        }
    }

    /// The length of the file once every chunk is there: that of the resource,
    /// with no record behind it.
    pub fn final_len(&self) -> (len: u64)
        ensures
            len == self.total_size,
    {
        self.total_size
    }

    /// The length that the file is emptied and stretched to before anything is
    /// fetched; `None` where an earlier download is taken up, whose file stays.
    pub open spec fn emptied_to(self) -> Option<u64> {
        if self.resumed {
            None
        } else {
            Some(self.total_size)
        }
    }

    /// The length that the file is emptied and stretched to before anything is
    /// fetched; `None` where an earlier download is taken up, whose file stays.
    pub fn fresh_len(&self) -> (len: Option<u64>)
        ensures
            len == self.emptied_to(),
    {
        if self.resumed {
            None
        } else {
            Some(self.total_size)
        }
    }

    /// What a download that has all its bytes came to.
    pub open spec fn result(self) -> DownloadSummary {
        DownloadSummary {
            kind: DownloadKind::Http,
            source: self.url,
            output_path: self.output_path,
            total_bytes: self.total_size,
            downloaded_bytes: self.total_size,
            resumed: self.resumed,
        }
    }

    /// What a download that has all its bytes came to.
    pub fn summary(&self) -> (summary: DownloadSummary)
        ensures
            summary == self.result(),
    {
        DownloadSummary {
            kind: DownloadKind::Http,
            source: self.url.clone(),
            output_path: self.output_path.clone(),
            total_bytes: self.total_size,
            downloaded_bytes: self.total_size,
            resumed: self.resumed,
        }
    }
}

proof fn lemma_all_finished(completed: Seq<bool>)
    requires
        forall|i: int| 0 <= i < completed.len() ==> #[trigger] completed[i],
    ensures
        finished_count(completed) == completed.len(),
    decreases completed.len(),
{
    if completed.len() > 0 {
        let before = completed.drop_last();
        assert forall|i: int| 0 <= i < before.len() implies #[trigger] before[i] by {
            assert(completed[i]);
        }
        lemma_all_finished(before);
    }
}

proof fn lemma_done(download: ParallelView)
    requires
        download.is_sound(),
    ensures
        download.is_done() == (forall|i: int|
            0 <= i < download.completed.len() ==> #[trigger] download.completed[i]),
{
    lemma_finished_count(download.completed);
    if forall|i: int| 0 <= i < download.completed.len() ==> #[trigger] download.completed[i] {
        lemma_all_finished(download.completed);
    }
}

/// When no worker is left that has not ended by itself, every chunk is
/// completed: however the number of workers was changed, none is left behind.
pub proof fn nothing_is_left_behind(download: ParallelView)
    requires
        download.is_sound(),
        download.running == 0,
    ensures
        download.queue.len() == 0,
        download.is_done(),
        forall|i: int| 0 <= i < download.completed.len() ==> #[trigger] download.completed[i],
{
    lemma_finished_count(download.completed);
}

/// A download that keeps no record never asks for one to be written, whatever
/// happens, and stays one that keeps none.
pub proof fn no_record_without_resume(
    download: ParallelView,
    index: int,
    now: u128,
    event: ParallelEvent,
    action: ParallelAction,
)
    requires
        !download.target.keeps_record,
        download.is_answer(event, action),
    ensures
        !download.completed_by(index, now).1.should_flush,
        !(action is SaveAndAbort),
        !download.launched(now).target.keeps_record,
        !download.stepped().0.target.keeps_record,
        !download.completed_by(index, now).0.target.keeps_record,
        !download.after(event).target.keeps_record,
{
}

/// The record of a download is one that the same download takes up, chunk for
/// chunk.
pub proof fn own_record_is_resumable(
    download: ParallelView,
    state: InlineDownloadState,
    options: DownloadOptions,
    probe: HttpProbe,
)
    requires
        download.is_sound(),
        state.version == STATE_VERSION,
        state.kind == DownloadKind::Http,
        state.source == download.target.url,
        state.total_size == download.target.total_size,
        state.chunk_size == download.target.chunk_size,
        state.completed_chunks@ == download.completed,
        state.etag == download.target.etag,
        state.last_modified == download.target.last_modified,
        options.resume,
        options.chunk_size == download.target.chunk_size,
        probe.etag == download.target.etag,
        probe.last_modified == download.target.last_modified,
    ensures
        is_resumable(
            Some(state),
            download.target.url@,
            options,
            download.target.total_size,
            probe,
        ),
{
}

/// As many workers are started as connections were asked for, but no more than
/// there are chunks; four where no number was asked for; and at least one.
pub proof fn workers_are_started_as_asked(
    begun: ParallelView,
    url: String,
    output_path: String,
    options: DownloadOptions,
    probe: HttpProbe,
    existing: Option<InlineDownloadState>,
    now: u128,
)
    requires
        begun.is_begun_by(url, output_path, options, probe, existing, now),
        begun.is_sound(),
        !begun.is_done(),
    ensures
        ({
            let wanted = options.connections;
            let chunks = begun.target.total_chunks;
            &&& chunks >= 1
            &&& (wanted is Some && 1 <= wanted->0 <= chunks) ==> begun.launch_of()
                == Launch::Spawn(wanted->0)
            &&& (wanted is Some && wanted->0 > chunks) ==> begun.launch_of() == Launch::Spawn(
                chunks,
            )
            &&& (wanted is Some && wanted->0 == 0) ==> begun.launch_of() == Launch::Spawn(1)
            &&& (wanted is None && chunks >= 4) ==> begun.launch_of() == Launch::Spawn(4)
            &&& (wanted is None && chunks < 4) ==> begun.launch_of() == Launch::Spawn(chunks)
        }),
{
    lemma_finished_count(begun.completed);
}

/// A download of which every chunk is there starts no worker, and ends with the
/// length of the resource.
pub proof fn whole_file_starts_no_worker(begun: ParallelView)
    requires
        begun.is_sound(),
        forall|i: int| 0 <= i < begun.completed.len() ==> #[trigger] begun.completed[i],
    ensures
        begun.launch_of() == Launch::Finish(begun.target.total_size),
{
    lemma_done(begun);
}

/// The chunks are those of equal size that cover the resource, and only the
/// last one may be shorter.
pub proof fn chunks_cover_the_resource(
    begun: ParallelView,
    url: String,
    output_path: String,
    options: DownloadOptions,
    probe: HttpProbe,
    existing: Option<InlineDownloadState>,
    now: u128,
)
    requires
        begun.is_begun_by(url, output_path, options, probe, existing, now),
        begun.is_sound(),
        options.chunk_size > 0,
    ensures
        probe.total_size == Some(begun.target.total_size),
        begun.target.chunk_size == options.chunk_size,
        begun.target.total_chunks * options.chunk_size >= begun.target.total_size,
        begun.target.total_chunks * options.chunk_size < begun.target.total_size
            + options.chunk_size,
        begun.completed.len() == begun.target.total_chunks,
        begun.target.keeps_record == options.resume,
        begun.target.flush_interval == options.metadata_flush_interval,
        begun.last_flush == now,
        begun.is_dynamic == options.connections is None,
{
    lemma_count_covers(begun.target.total_size as int, options.chunk_size as int);
}

proof fn lemma_count_covers(total: int, chunk: int)
    requires
        total >= 0,
        chunk > 0,
    ensures
        total <= chunks_needed(total, chunk) * chunk < total + chunk,
{
    let n = chunks_needed(total, chunk);
    if total == 0 {
        assert(n * chunk == 0) by (nonlinear_arith)
            requires
                n == 0,
        ;
    } else {
        lemma_chunks_needed(total, chunk);
        assert(n >= 1) by (nonlinear_arith)
            requires
                n >= 0,
                n * chunk >= total,
                total > 0,
        ;
        assert((n - 1) * chunk < total);
        assert(n * chunk == (n - 1) * chunk + chunk) by (nonlinear_arith);
    }
}

/// A record is not one to take up where it and the server name different values
/// of the `ETag`, of the `Last-Modified` or of the size, where the chunk sizes
/// differ, or where the options forbid it.
pub proof fn changed_record_is_not_resumable(
    state: InlineDownloadState,
    url: Seq<char>,
    options: DownloadOptions,
    total_size: u64,
    probe: HttpProbe,
)
    requires
        ({
            ||| state.etag is Some && probe.etag is Some && state.etag->0@ != probe.etag->0@
            ||| state.last_modified is Some && probe.last_modified is Some
                && state.last_modified->0@ != probe.last_modified->0@
            ||| state.total_size != total_size
            ||| state.chunk_size != options.chunk_size
            ||| state.kind != DownloadKind::Http
            ||| state.version != 1
            ||| !options.resume
        }),
    ensures
        !is_resumable(Some(state), url, options, total_size, probe),
        !is_resumable(None, url, options, total_size, probe),
{
    if is_resumable(Some(state), url, options, total_size, probe) {
        changed_resource_is_not_described(
            state,
            DownloadKind::Http,
            url,
            total_size,
            string_view(probe.etag),
            string_view(probe.last_modified),
        );
    }
}

/// An earlier download is never taken up where the record and the server name
/// different values of the `ETag`, of the `Last-Modified` or of the size, where
/// the chunk sizes differ, where the record does not tell of each chunk, or
/// where the options forbid it: every chunk is then fetched anew.
pub proof fn changed_resource_is_fetched_anew(
    begun: ParallelView,
    url: String,
    output_path: String,
    options: DownloadOptions,
    probe: HttpProbe,
    state: InlineDownloadState,
    now: u128,
    index: int,
)
    requires
        begun.is_begun_by(url, output_path, options, probe, Some(state), now),
        begun.is_sound(),
        ({
            ||| state.etag is Some && probe.etag is Some && state.etag->0@ != probe.etag->0@
            ||| state.last_modified is Some && probe.last_modified is Some
                && state.last_modified->0@ != probe.last_modified->0@
            ||| probe.total_size != Some(state.total_size)
            ||| state.chunk_size != options.chunk_size
            ||| state.kind != DownloadKind::Http
            ||| state.version != 1
            ||| state.completed_chunks@.len() != begun.target.total_chunks
            ||| !options.resume
        }),
        0 <= index < begun.target.total_chunks,
    ensures
        !begun.target.resumed,
        !begun.completed[index],
        begun.completed_count == 0,
        begun.downloaded == 0,
{
    nothing_finished_is_no_bytes(
        begun.completed,
        begun.target.total_size as int,
        options.chunk_size as int,
    );
}

/// What the record of the same resource tells of is taken over chunk for chunk,
/// and each of the other chunks waits for a worker.
pub proof fn unchanged_resource_is_taken_up(
    begun: ParallelView,
    url: String,
    output_path: String,
    options: DownloadOptions,
    probe: HttpProbe,
    state: InlineDownloadState,
    now: u128,
)
    requires
        begun.is_begun_by(url, output_path, options, probe, Some(state), now),
        begun.is_sound(),
        state.version == 1,
        state.kind == DownloadKind::Http,
        state.source@ == url@,
        probe.total_size == Some(state.total_size),
        state.chunk_size == options.chunk_size,
        state.completed_chunks@.len() == begun.target.total_chunks,
        state.etag is Some && probe.etag is Some ==> state.etag->0@ == probe.etag->0@,
        state.last_modified is Some && probe.last_modified is Some ==> state.last_modified->0@
            == probe.last_modified->0@,
        options.resume,
    ensures
        begun.target.resumed,
        begun.completed == state.completed_chunks@,
        begun.downloaded == finished_bytes(
            state.completed_chunks@,
            state.total_size as int,
            state.chunk_size as int,
        ),
        begun.queue.len() + begun.completed_count == begun.target.total_chunks,
        forall|k: int|
            0 <= k < begun.queue.len() ==> !state.completed_chunks@[(
            #[trigger] begun.queue[k]).index as int],
{
    unchanged_resource_is_described(
        state,
        string_view(probe.etag),
        string_view(probe.last_modified),
    );
}

/// The segments are taken in the order of the file, each of them once, and only
/// while no worker is asked to stop.
pub proof fn segments_are_taken_in_order(download: ParallelView)
    requires
        download.is_sound(),
    ensures
        ({
            let (after, step) = download.stepped();
            &&& step is Stop <==> download.extra_workers_to_stop > 0
            &&& step is Drained <==> download.extra_workers_to_stop == 0 && download.queue.len() == 0
            &&& step matches WorkerStep::Fetch(segment) ==> {
                &&& download.queue == seq![segment] + after.queue
                &&& !download.completed[segment.index as int]
                &&& forall|k: int|
                    0 <= k < after.queue.len() ==> segment.index < (#[trigger] after.queue[k]).index
                &&& segment.start == segment.index * download.target.chunk_size
            }
            &&& !(step is Fetch) ==> after.queue == download.queue
            &&& after.completed == download.completed
        }),
{
    if download.extra_workers_to_stop == 0 && download.queue.len() > 0 {
        let segment = download.queue[0];
        assert(download.queue =~= seq![segment] + download.queue.skip(1));
        assert forall|k: int| 0 <= k < download.queue.skip(1).len() implies segment.index < (
        #[trigger] download.queue.skip(1)[k]).index by {
            assert(download.queue[0].index < download.queue[k + 1].index);
        }
        if download.target.total_size > 0 {
            lemma_segment_at(
                segment.index as int,
                download.target.total_size as int,
                download.target.chunk_size as int,
            );
        }
    }
}

/// Completing a segment marks its chunk and no other, counts it once, and asks
/// for a record, where one is kept, after the last chunk and whenever the last
/// record is as old as the interval.
pub proof fn completed_segment_is_marked(
    download: ParallelView,
    index: int,
    now: u128,
    other: int,
)
    requires
        download.is_sound(),
        download.is_in_flight(index),
        download.holding > 0,
        0 <= other < download.completed.len(),
        now >= download.last_flush,
    ensures
        ({
            let (after, completion) = download.completed_by(index, now);
            &&& after.completed.len() == download.completed.len()
            &&& after.completed[index]
            &&& other != index ==> after.completed[other] == download.completed[other]
            &&& completion.completed_count == download.completed_count + 1
            &&& completion.is_final <==> forall|i: int|
                0 <= i < after.completed.len() ==> #[trigger] after.completed[i]
            &&& completion.should_flush <==> download.target.keeps_record && (now
                - download.last_flush >= download.target.flush_interval || completion.is_final)
            &&& completion.should_flush ==> after.last_flush == now
            &&& !completion.should_flush ==> after.last_flush == download.last_flush
            &&& after.queue == download.queue
            &&& after.downloaded == download.downloaded
        }),
{
    lemma_finish_one(download.completed, index);
    let after = download.completed_by(index, now).0;
    lemma_finished_count(after.completed);
    if forall|i: int| 0 <= i < after.completed.len() ==> #[trigger] after.completed[i] {
        lemma_all_finished(after.completed);
    }
}

/// An interruption and a failure end the download, the end of all workers
/// finishes it, and where a number of connections was named a tick changes
/// nothing.
pub proof fn events_have_their_answers(
    download: ParallelView,
    event: ParallelEvent,
    action: ParallelAction,
)
    requires
        download.is_answer(event, action),
    ensures
        event is Interrupt ==> (action is Abort || action is SaveAndAbort) && (action
            is SaveAndAbort <==> download.target.keeps_record),
        event matches ParallelEvent::WorkerFailed(error) ==> action == ParallelAction::Abort(error),
        event is AllEnded ==> action == ParallelAction::Finish(download.target.total_size),
        event is WorkerEnded ==> action is Wait,
        event is Tick && !download.is_dynamic ==> action is Wait && download.after(event)
            == download,
        event is Tick && download.queue.len() == 0 ==> action is Wait,
        event is Tick ==> action is Wait || action is Spawn,
        !(event is Tick) ==> download.after(event) == download,
{
}

/// A change of the number of workers is carried out in full: those that are
/// started run, and those that are given up are asked to stop, with at least
/// one left that is not.
pub proof fn changes_of_workers_are_carried_out(
    download: ParallelView,
    now: u128,
    reading: SpeedReading,
)
    requires
        download.is_sound(),
        download.scaler.has_room(),
        download.is_dynamic,
        download.queue.len() > 0,
    ensures
        ({
            let event = ParallelEvent::Tick { now, reading };
            let after = download.after(event);
            &&& after.running - after.extra_workers_to_stop == after.scaler.current_worker_count
            &&& after.running > after.extra_workers_to_stop
            &&& after.running - download.running + after.extra_workers_to_stop
                - download.extra_workers_to_stop <= 2
            &&& after.queue == download.queue
            &&& after.completed == download.completed
        }),
{
}

/// The file is emptied, and as long as the resource, unless an earlier download
/// is taken up; a download that has all its bytes came to the whole resource at
/// its own address and path.
pub proof fn summary_tells_of_the_whole(target: Target)
    ensures
        target.resumed ==> target.emptied_to() is None,
        !target.resumed ==> target.emptied_to() == Some(target.total_size),
        target.result().kind == DownloadKind::Http,
        target.result().source == target.url,
        target.result().output_path == target.output_path,
        target.result().total_bytes == target.total_size,
        target.result().downloaded_bytes == target.total_size,
        target.result().resumed == target.resumed,
{
}

/// Launching sets the clocks and nothing else, and an interruption is no failure
/// that another try could mend.
pub proof fn launching_sets_the_clocks(download: ParallelView, now: u128, error: DlError)
    ensures
        download.launched(now).last_flush == now,
        download.launched(now).scaler.last_time == now,
        download.launched(now).scaler.current_worker_count == download.scaler.current_worker_count,
        download.launched(now).queue == download.queue,
        download.launched(now).completed == download.completed,
        download.launched(now).downloaded == download.downloaded,
        download.launched(now).target == download.target,
        is_interruption(error) ==> error is Io && !is_retryable(error),
{
}

/// A download begins at rest: nobody works or is asked to stop, the workers that
/// are about to start are numbered from zero on, and the speed is judged from
/// the bytes and the time at the start.
pub proof fn download_begins_at_rest(
    begun: ParallelView,
    url: String,
    output_path: String,
    options: DownloadOptions,
    probe: HttpProbe,
    existing: Option<InlineDownloadState>,
    now: u128,
)
    requires
        begun.is_begun_by(url, output_path, options, probe, existing, now),
        !begun.is_done(),
    ensures
        begun.target.url == url,
        begun.target.output_path == output_path,
        begun.target.etag == probe.etag,
        begun.target.last_modified == probe.last_modified,
        begun.active_workers == 0,
        begun.extra_workers_to_stop == 0,
        begun.holding == 0,
        begun.running == begun.scaler.current_worker_count,
        begun.scaler.next_worker_id == begun.scaler.current_worker_count,
        begun.scaler.min_workers == 1,
        begun.scaler.max_workers == 32,
        begun.scaler.last_bytes == begun.downloaded,
        begun.scaler.last_time == now,
        begun.scaler.last_speed is None,
        begun.scaler.consecutive_no_improvement == 0,
        begun.launch_of() == Launch::Spawn(begun.scaler.current_worker_count),
{
}

/// A tick starts one or two workers or none, under numbers that no worker has
/// had, and each that is started runs; the speed is measured at most every half
/// second, from the bytes that have come in.
pub proof fn ticks_start_fresh_workers(
    download: ParallelView,
    now: u128,
    reading: SpeedReading,
    action: ParallelAction,
)
    requires
        download.is_sound(),
        download.scaler.has_room(),
        download.is_dynamic,
        download.is_answer(ParallelEvent::Tick { now, reading }, action),
    ensures
        ({
            let after = download.after(ParallelEvent::Tick { now, reading });
            &&& action matches ParallelAction::Spawn { count, start_id } ==> {
                &&& 1 <= count <= 2
                &&& start_id == download.scaler.next_worker_id
                &&& after.scaler.next_worker_id == start_id + count
                &&& after.running == download.running + count
                &&& after.extra_workers_to_stop == download.extra_workers_to_stop
            }
            &&& action is Wait ==> after.running == download.running
                && download.extra_workers_to_stop <= after.extra_workers_to_stop
            &&& now >= download.scaler.last_time + 500_000_000 ==> after.scaler.last_bytes
                == download.downloaded && after.scaler.last_time == now
            &&& now < download.scaler.last_time + 500_000_000 ==> after == download
            &&& download.scaler.last_speed is None && download.queue.len() > 0 && now
                >= download.scaler.last_time + 500_000_000 && download.scaler.current_worker_count
                <= 30 && download.scaler.max_workers == 32 ==> action == (ParallelAction::Spawn {
                count: 2,
                start_id: download.scaler.next_worker_id,
            })
        }),
{
}

/// A clock that was set back asks for no record before its time.
pub proof fn clock_set_back_asks_for_no_record(download: ParallelView, index: int, now: u128)
    requires
        now < download.last_flush,
        download.target.flush_interval > 0,
        download.completed_count + 1 < download.target.total_chunks,
    ensures
        !download.completed_by(index, now).1.should_flush,
{
}

} // verus!
