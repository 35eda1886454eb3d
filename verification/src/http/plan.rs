//! The course of a download over HTTP: from what the server tells of the
//! resource and what is on the disk to a parallel download or a single stream,
//! and from the one to the other where it fails.

use vstd::prelude::*;

use crate::chunks::{
    bytes_before, calculate_dynamic_chunk_size, contiguous_bytes_end_at_the_first_gap,
    contiguous_completed_bytes, dynamic_chunk_size, leading_finished,
};
use crate::error::{is_error_retryable, is_retryable, DlError, Result};
use crate::http::probe::HttpProbe;
use crate::http::retry::FALLBACK_DELAY;
use crate::text::{as_text, string_view};
use crate::types::{
    changed_resource_is_not_described, normal_options, DownloadKind, DownloadOptions,
    DownloadPhase, DownloadProgress, DownloadSummary, InlineDownloadState, DEFAULT_CHUNK_SIZE,
    DEFAULT_CONNECTIONS,
};

verus! {

/// What a download waits for.
pub enum HttpStage {
    /// What the server tells.
    Probing,
    /// The record of an earlier download, to take over its chunk size.
    Adopting,
    /// The length of the file, to tell what an earlier download was.
    Measuring,
    /// The record of an earlier download, to tell what it was.
    Checking,
    /// The end of the parallel download.
    Parallel,
    /// The end of the pause after a rate limit.
    Pausing,
    /// The record of an earlier download, to tell where a single stream goes
    /// on.
    Resuming,
    /// The length of the file, to tell where a single stream goes on.
    Extending,
    /// The file cut to this length.
    Truncating(u64),
    /// The end of the single stream.
    Single,
    /// The file under its own name.
    Renaming(DownloadSummary),
    /// Nothing more.
    Done,
}

/// What a download was waiting for.
pub enum HttpEvent {
    Probed(Result<HttpProbe>),
    /// What the record behind the bytes of the file reads.
    Record(Result<Option<InlineDownloadState>>),
    /// The length of the file, where there is one.
    FileLen(Option<u64>),
    ParallelEnded(Result<DownloadSummary>),
    Paused,
    Truncated,
    SingleEnded(Result<DownloadSummary>),
    Renamed(Result<()>),
}

/// What a download does next.
pub enum HttpAction {
    ReadRecord,
    MeasureFile,
    RunParallel,
    /// Pause for this many nanoseconds.
    Pause(u128),
    /// Cut the file to this length.
    Truncate(u64),
    /// Fetch all from this offset on over one connection.
    RunSingle(u64),
    Rename,
    Finish(Result<DownloadSummary>),
    /// Nothing: the event is not the one that is waited for.
    Wait,
}

/// A download over HTTP.
pub struct HttpDownload {
    pub url: String,
    /// Where the file ends up.
    pub target_path: String,
    /// Where the bytes are kept until it is whole.
    pub download_path: String,
    pub options: DownloadOptions,
    pub probe: HttpProbe,
    pub stage: HttpStage,
}

/// The record is one of this resource, its chunk size aside.
pub open spec fn is_own_record(
    state: InlineDownloadState,
    url: Seq<char>,
    probe: HttpProbe,
) -> bool {
    probe.total_size matches Some(total_size) && state.describes(
        DownloadKind::Http,
        url,
        total_size,
        string_view(probe.etag),
        string_view(probe.last_modified),
    )
}

/// More than one connection may be used: the server serves ranges of a resource
/// of known size, and the options do not hold the download to one connection.
pub open spec fn allows_parallel(probe: HttpProbe, connections: Option<usize>) -> bool {
    &&& probe.ranges_supported
    &&& probe.total_size is Some
    &&& connections matches Some(n) ==> n > 1
}

/// A file of this length is taken for the start of the resource: it is not
/// empty, and shorter than the whole.
pub open spec fn is_partial(file_len: Option<u64>, total_size: Option<u64>) -> bool {
    &&& file_len matches Some(len)
    &&& total_size matches Some(total)
    &&& 0 < len < total
}

/// The chunk size of a parallel download: one that fits the size of the file
/// and the number of connections, unless another one than the default was asked
/// for.
pub open spec fn parallel_chunk_size(
    options: DownloadOptions,
    total_size: Option<u64>,
) -> u64 {
    match total_size {
        Some(total) if options.chunk_size == DEFAULT_CHUNK_SIZE => dynamic_chunk_size(
            total as int,
            match options.connections {
                Some(n) => n as int,
                None => DEFAULT_CONNECTIONS as int,
            },
        ) as u64,
        _ => options.chunk_size,
    }
}

/// How many bytes the record shows to stand, without a gap, at the start of the
/// file.
pub open spec fn recorded_offset(
    record: Result<Option<InlineDownloadState>>,
    url: Seq<char>,
    options: DownloadOptions,
    probe: HttpProbe,
) -> u64 {
    match record {
        Ok(Some(state)) if is_own_record(state, url, probe) && state.chunk_size
            == options.chunk_size => bytes_before(
            leading_finished(state.completed_chunks@) as int,
            probe.total_size->0 as int,
            options.chunk_size as int,
        ) as u64,
        _ => 0,
    }
}

/// How many bytes are taken to be there by the length of the file alone: all of
/// them, where it is shorter than the resource.
pub open spec fn measured_offset(file_len: Option<u64>, total_size: Option<u64>) -> u64 {
    match (file_len, total_size) {
        (Some(len), Some(total)) if len < total => len,
        _ => 0,
    }
}

impl HttpDownload {
    /// A download that has not asked the server yet.
    pub fn new(
        url: String,
        target_path: String,
        download_path: String,
        options: DownloadOptions,
    ) -> (download: Self)
        ensures
            download == (HttpDownload {
                url,
                target_path,
                download_path,
                options: normal_options(options),
                probe: HttpProbe {
                    total_size: None,
                    ranges_supported: false,
                    etag: None,
                    last_modified: None,
                },
                stage: HttpStage::Probing,
            }),
            download.is_sound(),
    {
        HttpDownload {
            url,
            target_path,
            download_path,
            options: options.normalized(),
            probe: HttpProbe {
                total_size: None,
                ranges_supported: false,
                etag: None,
                last_modified: None,
            },
            stage: HttpStage::Probing,
        }
    }

    /// The progress of a download that asks the server.
    pub fn probing_progress(&self) -> (progress: DownloadProgress)
        ensures
            progress == (DownloadProgress {
                kind: DownloadKind::Http,
                phase: DownloadPhase::Probing,
                source: self.url,
                output_path: self.download_path,
                downloaded_bytes: 0,
                total_bytes: None,
                active_workers: 0,
                completed_chunks: None,
                total_chunks: None,
            }),
    {
        DownloadProgress {
            kind: DownloadKind::Http,
            phase: DownloadPhase::Probing,
            source: self.url.clone(),
            output_path: self.download_path.clone(),
            downloaded_bytes: 0,
            total_bytes: None,
            active_workers: 0,
            completed_chunks: None,
            total_chunks: None,
        }
    }

    pub open spec fn at(self, stage: HttpStage) -> Self {
        HttpDownload { stage, ..self }
    }

    /// The download with the chunk size of the record, where it is one of this
    /// resource.
    pub open spec fn adopted(self, record: Result<Option<InlineDownloadState>>) -> Self {
        match record {
            Ok(Some(state)) if is_own_record(state, self.url@, self.probe) => HttpDownload {
                options: DownloadOptions { chunk_size: state.chunk_size, ..self.options },
                ..self
            },
            _ => self,
        }
    }

    /// Goes for a parallel download where that is possible, once it is known
    /// that no single stream is to be taken up.
    pub open spec fn chosen(self) -> (Self, HttpAction) {
        if !allows_parallel(self.probe, self.options.connections) {
            self.to_single()
        } else if self.options.resume {
            (self.at(HttpStage::Measuring), HttpAction::MeasureFile)
        } else {
            self.to_parallel()
        }
    }

    pub open spec fn to_parallel(self) -> (Self, HttpAction) {
        (
            HttpDownload {
                options: DownloadOptions {
                    chunk_size: parallel_chunk_size(self.options, self.probe.total_size),
                    ..self.options
                },
                stage: HttpStage::Parallel,
                ..self
            },
            HttpAction::RunParallel,
        )
    }

    /// Goes for a single stream, once it is known where it goes on.
    pub open spec fn to_single(self) -> (Self, HttpAction) {
        if self.options.resume {
            (self.at(HttpStage::Resuming), HttpAction::ReadRecord)
        } else {
            self.single_from(0)
        }
    }

    pub open spec fn single_from(self, offset: u64) -> (Self, HttpAction) {
        if offset > 0 {
            (self.at(HttpStage::Truncating(offset)), HttpAction::Truncate(offset))
        } else {
            (self.at(HttpStage::Single), HttpAction::RunSingle(0))
        }
    }

    pub open spec fn finished(self, result: Result<DownloadSummary>) -> (Self, HttpAction) {
        (self.at(HttpStage::Done), HttpAction::Finish(result))
    }

    /// The state and the action after an event.
    pub open spec fn next(self, event: HttpEvent) -> (Self, HttpAction) {
        match (self.stage, event) {
            (HttpStage::Probing, HttpEvent::Probed(Err(error))) => self.finished(Err(error)),
            (HttpStage::Probing, HttpEvent::Probed(Ok(probe))) => {
                let told = HttpDownload { probe, ..self };
                if self.options.resume {
                    (told.at(HttpStage::Adopting), HttpAction::ReadRecord)
                } else {
                    told.chosen()
                }
            },
            (HttpStage::Adopting, HttpEvent::Record(record)) => self.adopted(record).chosen(),
            (HttpStage::Measuring, HttpEvent::FileLen(len)) => if is_partial(
                len,
                self.probe.total_size,
            ) {
                (self.at(HttpStage::Checking), HttpAction::ReadRecord)
            } else {
                self.to_parallel()
            },
            (HttpStage::Checking, HttpEvent::Record(Ok(None))) => self.to_single(),
            (HttpStage::Checking, HttpEvent::Record(_)) => self.to_parallel(),
            (HttpStage::Parallel, HttpEvent::ParallelEnded(Ok(summary))) => (
                self.at(HttpStage::Renaming(summary)),
                HttpAction::Rename,
            ),
            (HttpStage::Parallel, HttpEvent::ParallelEnded(Err(error))) => if !is_retryable(
                error,
            ) {
                self.finished(Err(error))
            } else if error is RateLimited {
                (self.at(HttpStage::Pausing), HttpAction::Pause(FALLBACK_DELAY))
            } else {
                self.to_single()
            },
            (HttpStage::Pausing, HttpEvent::Paused) => self.to_single(),
            (HttpStage::Resuming, HttpEvent::Record(record)) => {
                let offset = recorded_offset(record, self.url@, self.options, self.probe);
                if offset == 0 && self.probe.ranges_supported {
                    (self.at(HttpStage::Extending), HttpAction::MeasureFile)
                } else {
                    self.single_from(offset)
                }
            },
            (HttpStage::Extending, HttpEvent::FileLen(len)) => self.single_from(
                measured_offset(len, self.probe.total_size),
            ),
            (HttpStage::Truncating(offset), HttpEvent::Truncated) => (
                self.at(HttpStage::Single),
                HttpAction::RunSingle(offset),
            ),
            (HttpStage::Single, HttpEvent::SingleEnded(Ok(summary))) => (
                self.at(HttpStage::Renaming(summary)),
                HttpAction::Rename,
            ),
            (HttpStage::Single, HttpEvent::SingleEnded(Err(error))) => self.finished(Err(error)),
            (HttpStage::Renaming(summary), HttpEvent::Renamed(Ok(_))) => self.finished(
                Ok(DownloadSummary { output_path: self.target_path, ..summary }),
            ),
            (HttpStage::Renaming(_), HttpEvent::Renamed(Err(error))) => self.finished(
                Err(error),
            ),
            _ => (self, HttpAction::Wait),
        }
    }

    fn adopt(&mut self, record: &Result<Option<InlineDownloadState>>)
        ensures
            *final(self) == old(self).adopted(*record),
    {
        if let Ok(Some(state)) = record {
            if let Some(total_size) = self.probe.total_size {
                if state.is_record_of(
                    DownloadKind::Http,
                    self.url.as_str(),
                    total_size,
                    as_text(&self.probe.etag),
                    as_text(&self.probe.last_modified),
                ) {
                    self.options.chunk_size = state.chunk_size;
                }
            }
        }
    }

    fn choose_way(&mut self) -> (action: HttpAction)
        ensures
            (*final(self), action) == old(self).chosen(),
    {
        let one_connection = match self.options.connections {
            Some(n) => n <= 1,
            None => false,
        };
        if !self.probe.ranges_supported || self.probe.total_size.is_none() || one_connection {
            self.go_single()
        } else if self.options.resume {
            self.stage = HttpStage::Measuring;
            HttpAction::MeasureFile
        } else {
            self.go_parallel()
        }
    }

    fn go_parallel(&mut self) -> (action: HttpAction)
        ensures
            (*final(self), action) == old(self).to_parallel(),
    {
        if let Some(total_size) = self.probe.total_size {
            if self.options.chunk_size == DEFAULT_CHUNK_SIZE {
                let connections: usize = match self.options.connections {
                    Some(n) => n,
                    None => DEFAULT_CONNECTIONS,
                };
                self.options.chunk_size = calculate_dynamic_chunk_size(total_size, connections);
            }
        }
        self.stage = HttpStage::Parallel;
        HttpAction::RunParallel
    }

    fn go_single(&mut self) -> (action: HttpAction)
        ensures
            (*final(self), action) == old(self).to_single(),
    {
        if self.options.resume {
            self.stage = HttpStage::Resuming;
            HttpAction::ReadRecord
        } else {
            self.go_from(0)
        }
    }

    fn go_from(&mut self, offset: u64) -> (action: HttpAction)
        ensures
            (*final(self), action) == old(self).single_from(offset),
    {
        if offset > 0 {
            self.stage = HttpStage::Truncating(offset);
            HttpAction::Truncate(offset)
        } else {
            self.stage = HttpStage::Single;
            HttpAction::RunSingle(0)
        }
    }

    fn offset_of(&self, record: &Result<Option<InlineDownloadState>>) -> (offset: u64)
        ensures
            offset == recorded_offset(*record, self.url@, self.options, self.probe),
    {
        if let Ok(Some(state)) = record {
            if let Some(total_size) = self.probe.total_size {
                if state.is_compatible_with(
                    DownloadKind::Http,
                    self.url.as_str(),
                    total_size,
                    self.options.chunk_size,
                    as_text(&self.probe.etag),
                    as_text(&self.probe.last_modified),
                ) {
                    return contiguous_completed_bytes(
                        state.completed_chunks.as_slice(),
                        total_size,
                        self.options.chunk_size,
                    );
                }
            }
        }
        0
    }

    fn finish(&mut self, result: Result<DownloadSummary>) -> (action: HttpAction)
        ensures
            (*final(self), action) == old(self).finished(result),
    {
        self.stage = HttpStage::Done;
        HttpAction::Finish(result)
    }

    /// Takes an event, and says what to do next.
    pub fn step(&mut self, event: HttpEvent) -> (action: HttpAction)
        ensures
            (*final(self), action) == old(self).next(event),
            old(self).is_sound() ==> final(self).is_sound(),
    {
        let mut stage = HttpStage::Done;
        std::mem::swap(&mut stage, &mut self.stage);
        match (stage, event) {
            (HttpStage::Probing, HttpEvent::Probed(probed)) => match probed {
                Err(error) => self.finish(Err(error)),
                Ok(probe) => {
                    self.probe = probe;
                    if self.options.resume {
                        self.stage = HttpStage::Adopting;
                        HttpAction::ReadRecord
                    } else {
                        self.choose_way()
                    }
                },
            },
            (HttpStage::Adopting, HttpEvent::Record(record)) => {
                self.adopt(&record);
                self.choose_way()
            },
            (HttpStage::Measuring, HttpEvent::FileLen(len)) => {
                let partial = match (len, self.probe.total_size) {
                    (Some(len), Some(total)) => 0 < len && len < total,
                    _ => false,
                };
                if partial {
                    self.stage = HttpStage::Checking;
                    HttpAction::ReadRecord
                } else {
                    self.go_parallel()
                }
            },
            (HttpStage::Checking, HttpEvent::Record(record)) => match record {
                Ok(None) => self.go_single(),
                _ => self.go_parallel(),
            },
            (HttpStage::Parallel, HttpEvent::ParallelEnded(ended)) => match ended {
                Ok(summary) => {
                    self.stage = HttpStage::Renaming(summary);
                    HttpAction::Rename
                },
                Err(error) => {
                    if !is_error_retryable(&error) {
                        self.finish(Err(error))
                    } else if let DlError::RateLimited { .. } = error {
                        self.stage = HttpStage::Pausing;
                        HttpAction::Pause(FALLBACK_DELAY)
                    } else {
                        self.go_single()
                    }
                },
            },
            (HttpStage::Pausing, HttpEvent::Paused) => self.go_single(),
            (HttpStage::Resuming, HttpEvent::Record(record)) => {
                let offset: u64 = self.offset_of(&record);
                if offset == 0 && self.probe.ranges_supported {
                    self.stage = HttpStage::Extending;
                    HttpAction::MeasureFile
                } else {
                    self.go_from(offset)
                }
            },
            (HttpStage::Extending, HttpEvent::FileLen(len)) => {
                let offset: u64 = match (len, self.probe.total_size) {
                    (Some(len), Some(total)) => if len < total {
                        len
                    } else {
                        0
                    },
                    _ => 0,
                };
                self.go_from(offset)
            },
            (HttpStage::Truncating(offset), HttpEvent::Truncated) => {
                self.stage = HttpStage::Single;
                HttpAction::RunSingle(offset)
            },
            (HttpStage::Single, HttpEvent::SingleEnded(ended)) => match ended {
                Ok(summary) => {
                    self.stage = HttpStage::Renaming(summary);
                    HttpAction::Rename
                },
                Err(error) => self.finish(Err(error)),
            },
            (HttpStage::Renaming(summary), HttpEvent::Renamed(renamed)) => match renamed {
                Ok(_) => {
                    let mut summary = summary;
                    summary.output_path = self.target_path.clone();
                    self.finish(Ok(summary))
                },
                Err(error) => self.finish(Err(error)),
            },
            (stage, _) => {
                self.stage = stage;
                HttpAction::Wait
            },
        }
    }

    /// The stage and what is known fit together: a parallel download is one
    /// that the server allows, only a download that may be resumed asks what is
    /// on the disk, and a single stream goes on from within the resource.
    pub open spec fn is_sound(self) -> bool {
        match self.stage {
            HttpStage::Adopting => self.options.resume,
            HttpStage::Measuring | HttpStage::Checking => self.options.resume && allows_parallel(
                self.probe,
                self.options.connections,
            ),
            HttpStage::Parallel => allows_parallel(self.probe, self.options.connections),
            HttpStage::Resuming => self.options.resume,
            HttpStage::Extending => self.options.resume && self.probe.ranges_supported,
            HttpStage::Truncating(offset) => offset > 0 && self.may_go_on_from(offset),
            _ => true,
        }
    }

    /// A single stream may go on from this offset: it is the start, or it lies
    /// within the resource and the download may be resumed.
    pub open spec fn may_go_on_from(self, offset: u64) -> bool {
        offset > 0 ==> self.options.resume && (self.probe.total_size matches Some(total)
            && offset <= total)
    }

    /// The stage waits for this event.
    pub open spec fn expects(self, event: HttpEvent) -> bool {
        match self.stage {
            HttpStage::Probing => event is Probed,
            HttpStage::Adopting | HttpStage::Checking | HttpStage::Resuming => event is Record,
            HttpStage::Measuring | HttpStage::Extending => event is FileLen,
            HttpStage::Parallel => event is ParallelEnded,
            HttpStage::Pausing => event is Paused,
            HttpStage::Truncating(_) => event is Truncated,
            HttpStage::Single => event is SingleEnded,
            HttpStage::Renaming(_) => event is Renamed,
            HttpStage::Done => false,
        }
    }

    /// The most events that are still to come.
    pub open spec fn events_left(self) -> nat {
        match self.stage {
            HttpStage::Probing => 11,
            HttpStage::Adopting => 10,
            HttpStage::Measuring => 9,
            HttpStage::Checking => 8,
            HttpStage::Parallel => 7,
            HttpStage::Pausing => 6,
            HttpStage::Resuming => 5,
            HttpStage::Extending => 4,
            HttpStage::Truncating(_) => 3,
            HttpStage::Single => 2,
            HttpStage::Renaming(_) => 1,
            HttpStage::Done => 0,
        }
    }
}

/// Each event that is waited for brings the download closer to its end, and
/// the last one ends it.
pub proof fn every_event_counts(download: HttpDownload, event: HttpEvent)
    requires
        download.expects(event),
    ensures
        download.next(event).0.events_left() < download.events_left(),
        download.next(event).1 is Finish <==> download.next(event).0.events_left() == 0,
        !(download.next(event).1 is Wait),
{
}

/// A single stream goes on from where a download that may be resumed has come
/// to, within the resource, and otherwise from the start.
pub proof fn single_stream_goes_on_within(download: HttpDownload, event: HttpEvent)
    requires
        download.is_sound(),
    ensures
        download.next(event).0.is_sound(),
        match download.next(event).1 {
            HttpAction::RunSingle(offset) => download.next(event).0.may_go_on_from(offset),
            HttpAction::Truncate(offset) => download.next(event).0.may_go_on_from(offset),
            _ => true,
        },
{
}

/// A download that may not be resumed asks nothing of the disk, keeps nothing
/// that is there, and stays one that may not be resumed.
pub proof fn fresh_download_starts_over(download: HttpDownload, event: HttpEvent)
    requires
        download.is_sound(),
        !download.options.resume,
    ensures
        !download.next(event).0.options.resume,
        match download.next(event).1 {
            HttpAction::ReadRecord | HttpAction::MeasureFile | HttpAction::Truncate(_) => false,
            HttpAction::RunSingle(offset) => offset == 0,
            _ => true,
        },
{
}

/// A parallel download is begun only where the server serves ranges of a
/// resource of known size, and the options do not hold it to one connection.
pub proof fn parallel_needs_ranges(download: HttpDownload, event: HttpEvent)
    requires
        download.is_sound(),
    ensures
        download.next(event).1 is RunParallel ==> allows_parallel(
            download.next(event).0.probe,
            download.options.connections,
        ),
{
}

/// A download that ends well has its file under its own name.
pub proof fn success_is_renamed(download: HttpDownload, event: HttpEvent)
    ensures
        download.next(event).1 matches HttpAction::Finish(Ok(summary)) ==> (event matches
            HttpEvent::Renamed(Ok(_))) && summary.output_path == download.target_path,
{
}

/// The record and the server name two different values of the `ETag`, of the
/// `Last-Modified` or of the size, or the record is of another kind or version.
pub open spec fn shows_a_change(state: InlineDownloadState, probe: HttpProbe) -> bool {
    ||| state.etag is Some && probe.etag is Some && state.etag->0@ != probe.etag->0@
    ||| state.last_modified is Some && probe.last_modified is Some && state.last_modified->0@
        != probe.last_modified->0@
    ||| probe.total_size != Some(state.total_size)
    ||| state.kind != DownloadKind::Http
    ||| state.version != 1
}

/// A single stream goes on only from where the record leaves no gap: every byte
/// before that place lies in a finished chunk, the chunk at that place does
/// not, and what is kept of the file is cut right there.
pub proof fn resumed_stream_leaves_no_gap(download: HttpDownload, state: InlineDownloadState)
    requires
        download.stage is Resuming,
    ensures
        ({
            let chunk = download.options.chunk_size as int;
            let done = state.completed_chunks@;
            match download.next(HttpEvent::Record(Ok(Some(state)))).1 {
                HttpAction::Truncate(offset) => {
                    &&& offset > 0
                    &&& download.next(HttpEvent::Record(Ok(Some(state)))).0.stage
                        == HttpStage::Truncating(offset)
                    &&& state.chunk_size == chunk
                    &&& download.probe.total_size is Some && offset
                        <= download.probe.total_size->0
                    &&& !shows_a_change(state, download.probe)
                    &&& forall|p: int|
                        0 <= p < offset ==> 0 <= #[trigger] (p / chunk) < done.len() && done[p
                            / chunk]
                    &&& offset < download.probe.total_size->0 ==> offset as int / chunk
                        >= done.len() || !done[offset as int / chunk]
                },
                HttpAction::RunSingle(offset) => offset == 0 && !download.probe.ranges_supported,
                action => action is MeasureFile && download.probe.ranges_supported,
            }
        }),
{
    if download.probe.total_size is Some {
        contiguous_bytes_end_at_the_first_gap(
            state.completed_chunks@,
            download.probe.total_size->0 as int,
            download.options.chunk_size as int,
        );
    }
}

/// What a fitting record shows to stand at the start of the file is kept: where
/// its first chunk is finished, the stream does not start over.
pub proof fn finished_start_is_kept(download: HttpDownload, state: InlineDownloadState)
    requires
        download.stage is Resuming,
        state.source@ == download.url@,
        !shows_a_change(state, download.probe),
        state.chunk_size == download.options.chunk_size,
        state.chunk_size > 0,
        state.total_size > 0,
        state.completed_chunks@.len() > 0,
        state.completed_chunks@[0],
    ensures
        download.next(HttpEvent::Record(Ok(Some(state)))).1 is Truncate,
{
    contiguous_bytes_end_at_the_first_gap(
        state.completed_chunks@,
        state.total_size as int,
        state.chunk_size as int,
    );
    let chunk = state.chunk_size as int;
    assert(0int / chunk == 0) by (nonlinear_arith)
        requires
            chunk > 0,
    ;
}

/// What a single stream keeps of the file is the start of the resource, where
/// the file holds the bytes of the resource throughout the chunks that the
/// record shows as finished.
pub proof fn resumed_stream_keeps_the_resource(
    download: HttpDownload,
    state: InlineDownloadState,
    file: Seq<u8>,
    resource: Seq<u8>,
)
    requires
        download.stage is Resuming,
        download.probe.total_size is Some,
        download.probe.total_size->0 == resource.len(),
        file.len() >= resource.len(),
        ({
            let chunk = download.options.chunk_size as int;
            let done = state.completed_chunks@;
            forall|p: int|
                0 <= p < resource.len() && 0 <= p / chunk < done.len() && done[p / chunk]
                    ==> #[trigger] file[p] == resource[p]
        }),
    ensures
        download.next(HttpEvent::Record(Ok(Some(state)))).1 matches HttpAction::Truncate(offset)
            ==> file.take(offset as int) == resource.take(offset as int),
{
    resumed_stream_leaves_no_gap(download, state);
    if let HttpAction::Truncate(offset) = download.next(HttpEvent::Record(Ok(Some(state)))).1 {
        let chunk = download.options.chunk_size as int;
        assert forall|p: int| 0 <= p < offset implies #[trigger] file[p] == resource[p] by {
            assert(state.completed_chunks@[p / chunk]);
        }
        assert(file.take(offset as int) =~= resource.take(offset as int));
    }
}

/// The record of a resource that has changed counts for nothing: the download
/// goes on as if there were none, both where it looks for a chunk size and
/// where it looks for a place to go on from.
pub proof fn changed_record_counts_for_nothing(download: HttpDownload, state: InlineDownloadState)
    requires
        download.stage is Adopting || download.stage is Resuming,
        shows_a_change(state, download.probe),
    ensures
        download.next(HttpEvent::Record(Ok(Some(state)))) == download.next(
            HttpEvent::Record(Ok(None)),
        ),
        !(download.next(HttpEvent::Record(Ok(Some(state)))).1 is Truncate),
        recorded_offset(Ok(Some(state)), download.url@, download.options, download.probe) == 0,
{
    if download.probe.total_size is Some {
        changed_resource_is_not_described(
            state,
            DownloadKind::Http,
            download.url@,
            download.probe.total_size->0,
            string_view(download.probe.etag),
            string_view(download.probe.last_modified),
        );
    }
}

/// The chunk size of a record of the same resource is taken over, whatever was
/// asked for, and without such a record the one that was asked for stays.
pub proof fn chunk_size_of_the_record_is_adopted(
    download: HttpDownload,
    state: InlineDownloadState,
    error: DlError,
)
    requires
        download.stage is Adopting,
        download.options.resume,
        state.source@ == download.url@,
        !shows_a_change(state, download.probe),
    ensures
        download.next(HttpEvent::Record(Ok(Some(state)))).0.options.chunk_size == state.chunk_size,
        download.next(HttpEvent::Record(Ok(None))).0.options.chunk_size
            == download.options.chunk_size,
        download.next(HttpEvent::Record(Err(error))).0.options.chunk_size
            == download.options.chunk_size,
{
}

/// Once the server has answered, several connections are used exactly where it
/// serves ranges, the size is known, and the options do not name fewer than two
/// connections; a download that may be resumed looks at the disk first.
pub proof fn way_is_chosen_by_server_and_options(download: HttpDownload, probe: HttpProbe)
    requires
        download.stage is Probing,
    ensures
        ({
            let several = probe.ranges_supported && probe.total_size is Some && (
            download.options.connections is None || download.options.connections->0 >= 2);
            let (after, action) = download.next(HttpEvent::Probed(Ok(probe)));
            &&& after.probe == probe
            &&& download.options.resume ==> action is ReadRecord && after.stage is Adopting
            &&& !download.options.resume && several ==> action is RunParallel
            &&& !download.options.resume && !several ==> action == HttpAction::RunSingle(0)
        }),
{
}

/// The same once the record of an earlier download has been looked at: the
/// length of the file is asked for where several connections may be used, and
/// the place to go on from where they may not.
pub proof fn way_is_chosen_after_the_record(
    download: HttpDownload,
    record: Result<Option<InlineDownloadState>>,
)
    requires
        download.stage is Adopting,
        download.options.resume,
    ensures
        ({
            let several = download.probe.ranges_supported && download.probe.total_size is Some && (
            download.options.connections is None || download.options.connections->0 >= 2);
            let (after, action) = download.next(HttpEvent::Record(record));
            &&& several ==> action is MeasureFile && after.stage is Measuring
            &&& !several ==> action is ReadRecord && after.stage is Resuming
        }),
{
}

/// A file that is shorter than the resource, not empty, and has no record was
/// begun over one connection, and goes on so; every other one goes on over
/// several.
pub proof fn begun_single_stream_stays_one(
    download: HttpDownload,
    len: Option<u64>,
    total: u64,
    state: InlineDownloadState,
    error: DlError,
)
    requires
        download.options.resume,
        download.probe.total_size == Some(total),
    ensures
        download.stage is Measuring ==> ({
            let short = len is Some && 0 < len->0 < total;
            let (after, action) = download.next(HttpEvent::FileLen(len));
            &&& short ==> action is ReadRecord && after.stage is Checking
            &&& !short ==> action is RunParallel
        }),
        download.stage is Checking ==> {
            &&& download.next(HttpEvent::Record(Ok(None))).0.stage is Resuming
            &&& download.next(HttpEvent::Record(Ok(None))).1 is ReadRecord
            &&& download.next(HttpEvent::Record(Ok(Some(state)))).1 is RunParallel
            &&& download.next(HttpEvent::Record(Err(error))).1 is RunParallel
        },
{
}

/// Without a record, a single stream goes on behind the bytes of a file that is
/// shorter than the resource, and starts over with any other file.
pub proof fn stream_goes_on_behind_a_short_file(
    download: HttpDownload,
    len: Option<u64>,
    total: u64,
)
    requires
        download.stage is Extending,
        download.probe.total_size == Some(total),
    ensures
        len is Some && 0 < len->0 < total ==> download.next(HttpEvent::FileLen(len)).1
            == HttpAction::Truncate(len->0),
        len is None || len->0 == 0 || len->0 >= total ==> download.next(
            HttpEvent::FileLen(len),
        ).1 == HttpAction::RunSingle(0),
{
}

/// Without a record, and with one that cannot be read, the length of the file is
/// asked for where the server serves ranges, and else the stream starts over;
/// and a resource of unknown size is never taken up.
pub proof fn stream_without_a_record(download: HttpDownload, error: DlError, len: Option<u64>)
    ensures
        download.stage is Resuming ==> {
            &&& download.next(HttpEvent::Record(Err(error))) == download.next(
                HttpEvent::Record(Ok(None)),
            )
            &&& download.probe.ranges_supported ==> download.next(HttpEvent::Record(Ok(None))).1
                is MeasureFile && download.next(HttpEvent::Record(Ok(None))).0.stage is Extending
            &&& !download.probe.ranges_supported ==> download.next(HttpEvent::Record(Ok(None))).1
                == HttpAction::RunSingle(0)
        },
        download.stage is Extending && download.probe.total_size is None ==> download.next(
            HttpEvent::FileLen(len),
        ).1 == HttpAction::RunSingle(0),
{
}

/// An event that is not waited for changes nothing.
pub proof fn other_events_change_nothing(download: HttpDownload, event: HttpEvent)
    requires
        ({
            ||| download.stage is Done
            ||| download.stage is Probing && !(event is Probed)
            ||| download.stage is Adopting && !(event is Record)
            ||| download.stage is Measuring && !(event is FileLen)
            ||| download.stage is Checking && !(event is Record)
            ||| download.stage is Parallel && !(event is ParallelEnded)
            ||| download.stage is Pausing && !(event is Paused)
            ||| download.stage is Resuming && !(event is Record)
            ||| download.stage is Extending && !(event is FileLen)
            ||| download.stage is Truncating && !(event is Truncated)
            ||| download.stage is Single && !(event is SingleEnded)
            ||| download.stage is Renaming && !(event is Renamed)
        }),
    ensures
        download.next(event) == (download, HttpAction::Wait),
{
}

/// A stream runs from where the file was cut.
pub proof fn stream_runs_from_the_cut(download: HttpDownload, offset: u64)
    requires
        download.stage == HttpStage::Truncating(offset),
    ensures
        download.next(HttpEvent::Truncated).1 == HttpAction::RunSingle(offset),
        download.next(HttpEvent::Truncated).0.stage is Single,
{
}

/// A parallel download keeps the chunk size that was asked for or adopted; only
/// where that is two mebibytes, one is chosen by the size of the file and the
/// number of connections, or eight where none is named.
pub proof fn asked_chunk_size_is_kept(download: HttpDownload, event: HttpEvent, total: u64)
    requires
        download.stage is Measuring || download.stage is Checking || download.stage is Probing
            && !download.options.resume,
        download.next(event).1 is RunParallel,
        download.next(event).0.probe.total_size == Some(total),
    ensures
        download.options.chunk_size != 2097152 ==> download.next(event).0.options.chunk_size
            == download.options.chunk_size,
        download.options.chunk_size == 2097152 && download.options.connections is None
            ==> download.next(event).0.options.chunk_size == dynamic_chunk_size(total as int, 8),
        download.options.chunk_size == 2097152 && download.options.connections is Some
            ==> download.next(event).0.options.chunk_size == dynamic_chunk_size(
            total as int,
            download.options.connections->0 as int,
        ),
{
    lemma_dynamic_chunk_size_fits(total as int, 8);
    if download.options.connections is Some {
        lemma_dynamic_chunk_size_fits(total as int, download.options.connections->0 as int);
    }
}

proof fn lemma_dynamic_chunk_size_fits(total: int, connections: int)
    ensures
        0 <= dynamic_chunk_size(total, connections) <= u64::MAX,
{
}

/// A parallel download that fails is followed by a single stream where another
/// try may succeed, after three seconds where the server set a rate limit, and
/// is the end with its own error where not.
pub proof fn failed_parallel_download_falls_back(download: HttpDownload, error: DlError)
    requires
        download.stage is Parallel,
    ensures
        ({
            let (after, action) = download.next(HttpEvent::ParallelEnded(Err(error)));
            &&& !is_retryable(error) ==> action == HttpAction::Finish(Err(error))
            &&& is_retryable(error) && error is RateLimited ==> action == HttpAction::Pause(
                3_000_000_000,
            ) && after.stage is Pausing
            &&& is_retryable(error) && !(error is RateLimited) && download.options.resume
                ==> action is ReadRecord && after.stage is Resuming
            &&& is_retryable(error) && !(error is RateLimited) && !download.options.resume
                ==> action == HttpAction::RunSingle(0)
        }),
        error is RateLimited ==> is_retryable(error),
{
}

/// After the pause a single stream takes over, and its failure is the end.
pub proof fn single_stream_is_the_last_resort(download: HttpDownload, error: DlError)
    ensures
        download.stage is Pausing && download.options.resume ==> download.next(
            HttpEvent::Paused,
        ).1 is ReadRecord && download.next(HttpEvent::Paused).0.stage is Resuming,
        download.stage is Pausing && !download.options.resume ==> download.next(
            HttpEvent::Paused,
        ).1 == HttpAction::RunSingle(0),
        download.stage is Single ==> download.next(HttpEvent::SingleEnded(Err(error))).1
            == HttpAction::Finish(Err(error)),
        download.stage is Renaming ==> download.next(HttpEvent::Renamed(Err(error))).1
            == HttpAction::Finish(Err(error)),
        download.stage is Probing ==> download.next(HttpEvent::Probed(Err(error))).1
            == HttpAction::Finish(Err(error)),
{
}

/// A transfer that ended well is renamed, and its summary is handed on as it
/// was, but for the path.
pub proof fn summary_is_handed_on(download: HttpDownload, summary: DownloadSummary)
    ensures
        download.stage is Parallel ==> download.next(HttpEvent::ParallelEnded(Ok(summary))).1
            is Rename && download.next(HttpEvent::ParallelEnded(Ok(summary))).0.stage
            == HttpStage::Renaming(summary),
        download.stage is Single ==> download.next(HttpEvent::SingleEnded(Ok(summary))).1 is Rename
            && download.next(HttpEvent::SingleEnded(Ok(summary))).0.stage == HttpStage::Renaming(
            summary,
        ),
        download.stage == HttpStage::Renaming(summary) ==> (download.next(
            HttpEvent::Renamed(Ok(())),
        ).1 matches HttpAction::Finish(Ok(end)) && end.kind == summary.kind && end.source
            == summary.source && end.total_bytes == summary.total_bytes && end.downloaded_bytes
            == summary.downloaded_bytes && end.resumed == summary.resumed && end.output_path
            == download.target_path),
{
}

/// No event changes where the download comes from and goes to, nor an option
/// other than the chunk size; and the answer of the server is taken once.
pub proof fn course_keeps_its_terms(download: HttpDownload, event: HttpEvent)
    ensures
        download.next(event).0.url == download.url,
        download.next(event).0.target_path == download.target_path,
        download.next(event).0.download_path == download.download_path,
        download.next(event).0.options == (DownloadOptions {
            chunk_size: download.next(event).0.options.chunk_size,
            ..download.options
        }),
        !(download.stage is Probing) ==> download.next(event).0.probe == download.probe,
{
}

} // verus!
