//! Whole downloads, with a server and a disk in memory.

use std::collections::HashMap;

use libdl::client::DownloadTask;
use libdl::http::parallel::{
    Launch, ParallelAction, ParallelDownload, ParallelEvent, WorkerStep,
};
use libdl::http::plan::{HttpAction, HttpDownload, HttpEvent};
use libdl::http::probe::{probe_step, HttpProbe, ProbeAction, ProbeEvent, ResponseInfo};
use libdl::http::retry::{segment_retry_with, single_retry_with, Retry};
use libdl::http::scaler::SpeedReading;
use libdl::http::single::{accept_single_response, rest_header, SingleTransfer};
use libdl::http::transfer::{accept_range_response, range_header, SegmentTransfer};
use libdl::paths::determine_download_paths;
use libdl::state::{
    frame_inline_state, locate_inline_state, may_hold_state, METADATA_FOOTER_SIZE,
};
use libdl::torrent::{
    accept_listing, accept_managed, number_files, torrent_progress, torrent_step, Added,
    TorrentEntry, TorrentFetch, TorrentStats, TorrentStep,
};
use libdl::{
    DlClient, DlError, DownloadKind, DownloadOptions, DownloadPhase, DownloadProgress,
    DownloadSource, DownloadSummary, InlineDownloadState, TorrentInput,
};
use serde_json::Value;

const SEC: u128 = 1_000_000_000;

struct World {
    data: Vec<u8>,
    rate_limited: bool,
    files: HashMap<String, Vec<u8>>,
    progress: Vec<DownloadProgress>,
    pauses: Vec<u128>,
    records: usize,
    clock: u128,
}

fn payload(len: usize) -> Vec<u8> {
    (0..128_u32)
        .flat_map(|value| value.to_be_bytes())
        .cycle()
        .take(len)
        .collect()
}

fn world(data: Vec<u8>, rate_limited: bool) -> World {
    World {
        data,
        rate_limited,
        files: HashMap::new(),
        progress: Vec::new(),
        pauses: Vec::new(),
        records: 0,
        clock: SEC,
    }
}

fn to_bytes(state: &InlineDownloadState) -> Vec<u8> {
    let mut map = serde_json::Map::new();
    let mut put = |name: &str, value: Value| map.insert(name.to_string(), value);
    put("version", Value::from(state.version));
    put("source", Value::from(state.source.clone()));
    put("total_size", Value::from(state.total_size));
    put("chunk_size", Value::from(state.chunk_size));
    put("completed_chunks", Value::from(state.completed_chunks.clone()));
    put("etag", Value::from(state.etag.clone()));
    put("last_modified", Value::from(state.last_modified.clone()));
    put("updated_at_unix_secs", Value::from(state.updated_at_unix_secs));
    serde_json::to_vec(&Value::Object(map)).unwrap()
}

fn from_bytes(bytes: &[u8]) -> InlineDownloadState {
    let value: Value = serde_json::from_slice(bytes).unwrap();
    let text = |name: &str| value[name].as_str().map(str::to_string);
    InlineDownloadState {
        version: value["version"].as_u64().unwrap() as u16,
        kind: DownloadKind::Http,
        source: text("source").unwrap(),
        total_size: value["total_size"].as_u64().unwrap(),
        chunk_size: value["chunk_size"].as_u64().unwrap(),
        completed_chunks: value["completed_chunks"]
            .as_array()
            .unwrap()
            .iter()
            .map(|flag| flag.as_bool().unwrap())
            .collect(),
        etag: text("etag"),
        last_modified: text("last_modified"),
        updated_at_unix_secs: value["updated_at_unix_secs"].as_u64().unwrap(),
    }
}

impl World {
    fn tick(&mut self) -> u128 {
        self.clock += 1_000_000;
        self.clock
    }

    fn read_record(&self, path: &str) -> libdl::Result<Option<InlineDownloadState>> {
        let Some(file) = self.files.get(path) else {
            return Ok(None);
        };
        if !may_hold_state(file.len() as u64) {
            return Ok(None);
        }
        let footer = &file[file.len() - METADATA_FOOTER_SIZE as usize..];
        let place = locate_inline_state(file.len() as u64, footer)?;
        Ok(place.map(|(start, len)| from_bytes(&file[start as usize..(start + len) as usize])))
    }

    fn write_record(&mut self, path: &str, total: u64, state: &InlineDownloadState) {
        let frame = frame_inline_state(to_bytes(state)).unwrap();
        let file = self.files.get_mut(path).unwrap();
        file.resize(total as usize, 0);
        file.extend_from_slice(&frame);
    }

    fn write_at(&mut self, path: &str, offset: u64, bytes: &[u8]) {
        let file = self.files.entry(path.to_string()).or_default();
        let end = offset as usize + bytes.len();
        if file.len() < end {
            file.resize(end, 0);
        }
        file[offset as usize..end].copy_from_slice(bytes);
    }

    /// The status and the body of the answer to a request.
    fn serve(&self, range: Option<&str>) -> (u16, Vec<u8>) {
        let Some(range) = range else {
            return (200, self.data.clone());
        };
        let (start, end) = range.strip_prefix("bytes=").unwrap().split_once('-').unwrap();
        let start: usize = start.parse().unwrap();
        let last = self.data.len() - 1;
        let end: usize = end.parse().unwrap_or(last).min(last);
        if self.rate_limited && (start, end) != (0, 0) {
            return (429, Vec::new());
        }
        (206, self.data[start..=end].to_vec())
    }

    fn probe(&self) -> HttpProbe {
        let (status, body) = self.serve(Some("bytes=0-0"));
        let response = ResponseInfo {
            status,
            content_range: Some(format!("bytes 0-0/{}", self.data.len()).into_bytes()),
            content_length: Some(body.len().to_string().into_bytes()),
            accept_ranges: Some(b"bytes".to_vec()),
            etag: Some(b"\"test\"".to_vec()),
            last_modified: None,
        };
        match probe_step(ProbeEvent::Range(response)) {
            ProbeAction::Done(probe) => probe,
            _ => panic!("the server answers ranges"),
        }
    }

    fn fetch_segment(
        &mut self,
        download: &mut ParallelDownload,
        segment: libdl::Segment,
    ) -> libdl::Result<()> {
        let mut attempt = 1;
        loop {
            let (status, body) = self.serve(Some(&range_header(&segment)));
            let outcome = accept_range_response(&segment, status, None, None, None, None)
                .and_then(|()| {
                    let mut transfer = SegmentTransfer::new(segment);
                    let mut at = segment.start;
                    for piece in body.chunks(10_000) {
                        transfer.take_in(piece.len())?;
                        self.write_at(&download.target().output_path, at, piece);
                        at += piece.len() as u64;
                        download.record_bytes(piece.len());
                    }
                    transfer.finish()
                });
            let error = match outcome {
                Ok(()) => return Ok(()),
                Err(error) => error,
            };
            match segment_retry_with(&error, attempt, 0) {
                Retry::GiveUp => return Err(error),
                Retry::After(delay) => {
                    self.pauses.push(delay);
                    attempt += 1;
                }
            }
        }
    }

    fn run_parallel(&mut self, plan: &HttpDownload) -> libdl::Result<DownloadSummary> {
        let path = plan.download_path.clone();
        let existing = if plan.options.resume {
            self.read_record(&path)?
        } else {
            None
        };
        let now = self.tick();
        let mut download = ParallelDownload::start(
            plan.url.clone(),
            path.clone(),
            &plan.options,
            plan.probe.clone(),
            existing,
            now,
        )?;
        let total = download.target().total_size;
        if let Some(len) = download.target().fresh_len() {
            self.files.insert(path.clone(), vec![0; len as usize]);
        }
        self.progress.push(download.progress(DownloadPhase::Downloading));
        let mut workers = match download.launch(now) {
            Launch::Finish(len) => {
                self.files.get_mut(&path).unwrap().truncate(len as usize);
                return Ok(download.summary());
            }
            Launch::Spawn(count) => count,
        };
        let mut held: Vec<libdl::Segment> = Vec::new();
        while workers > 0 || !held.is_empty() {
            while held.len() < workers {
                match download.next_step() {
                    WorkerStep::Fetch(segment) => held.push(segment),
                    WorkerStep::Stop | WorkerStep::Drained => workers -= 1,
                }
            }
            if held.is_empty() {
                continue;
            }
            self.progress.push(download.progress(DownloadPhase::Downloading));
            let segment = held.remove(0);
            let outcome = self.fetch_segment(&mut download, segment);
            download.settle();
            if let Err(error) = outcome {
                match download.react(ParallelEvent::WorkerFailed(error)) {
                    ParallelAction::Abort(error) => return Err(error),
                    _ => panic!("a failed worker ends the download"),
                }
            }
            let now = self.tick();
            let completion = download.complete_segment(segment.index, now);
            if completion.should_flush {
                let state = download.state_at(1);
                self.write_record(&path, total, &state);
                self.records += 1;
            }
            self.clock += SEC;
            let now = self.tick();
            let reading = SpeedReading { speed: 1, improved: true };
            match download.react(ParallelEvent::Tick { now, reading }) {
                ParallelAction::Spawn { count, .. } => workers += count,
                ParallelAction::Wait => {}
                _ => panic!("a tick changes the number of workers at most"),
            }
        }
        assert!(download.is_complete());
        match download.react(ParallelEvent::AllEnded) {
            ParallelAction::Finish(len) => {
                self.files.get_mut(&path).unwrap().truncate(len as usize)
            }
            _ => panic!("the download is at its end"),
        }
        self.progress.push(download.target().closing_progress(DownloadPhase::Complete));
        Ok(download.summary())
    }

    fn run_single(&mut self, plan: &HttpDownload, start: u64) -> libdl::Result<DownloadSummary> {
        let ranges = plan.probe.ranges_supported;
        let mut attempt = 1;
        let (status, body) = loop {
            let (status, body) = self.serve(rest_header(start, ranges).as_deref());
            match accept_single_response(start, ranges, status, None, None, None, None) {
                Ok(()) => break (status, body),
                Err(error) => match single_retry_with(&error, attempt, 0) {
                    Retry::GiveUp => return Err(error),
                    Retry::After(delay) => {
                        self.pauses.push(delay);
                        attempt += 1;
                    }
                },
            }
        };
        let now = self.tick();
        let mut transfer = SingleTransfer::begin(
            plan.url.clone(),
            plan.download_path.clone(),
            start,
            status,
            plan.probe.total_size,
            Some(body.len() as u64),
            now,
        );
        if transfer.offset == 0 {
            self.files.insert(plan.download_path.clone(), Vec::new());
        }
        for piece in body.chunks(10_000) {
            self.write_at(&plan.download_path, transfer.downloaded, piece);
            let now = self.tick();
            transfer.wrote(piece.len(), now);
        }
        self.progress.push(transfer.progress(DownloadPhase::Complete));
        Ok(transfer.summary())
    }

    fn download(
        &mut self,
        url: &str,
        output: &str,
        options: DownloadOptions,
    ) -> libdl::Result<DownloadSummary> {
        let (target, partial) = determine_download_paths(output, options.overwrite, |p: &str| {
            self.files.contains_key(p)
        })
        .unwrap();
        let mut plan = HttpDownload::new(url.to_string(), target, partial, options);
        self.progress.push(plan.probing_progress());
        let mut event = HttpEvent::Probed(Ok(self.probe()));
        loop {
            let path = plan.download_path.clone();
            event = match plan.step(event) {
                HttpAction::ReadRecord => HttpEvent::Record(self.read_record(&path)),
                HttpAction::MeasureFile => {
                    HttpEvent::FileLen(self.files.get(&path).map(|file| file.len() as u64))
                }
                HttpAction::RunParallel => HttpEvent::ParallelEnded(self.run_parallel(&plan)),
                HttpAction::Pause(delay) => {
                    self.pauses.push(delay);
                    HttpEvent::Paused
                }
                HttpAction::Truncate(len) => {
                    self.files.get_mut(&path).unwrap().truncate(len as usize);
                    HttpEvent::Truncated
                }
                HttpAction::RunSingle(start) => {
                    HttpEvent::SingleEnded(self.run_single(&plan, start))
                }
                HttpAction::Rename => {
                    let file = self.files.remove(&path).unwrap();
                    self.files.insert(plan.target_path.clone(), file);
                    HttpEvent::Renamed(Ok(()))
                }
                HttpAction::Finish(result) => return result,
                HttpAction::Wait => panic!("each event is the one that is waited for"),
            };
        }
    }
}

fn options() -> DownloadOptions {
    DownloadOptions {
        connections: Some(4),
        overwrite: true,
        ..DownloadOptions::default()
    }
}

#[test]
fn parallel_download_writes_file_and_clears_inline_state() {
    let data = payload(512 * 1024);
    let mut world = world(data.clone(), false);
    let summary = world
        .download(
            "http://127.0.0.1/payload.bin",
            "payload.bin",
            DownloadOptions {
                chunk_size: 32 * 1024,
                ..options()
            },
        )
        .unwrap();

    assert_eq!(summary.total_bytes, data.len() as u64);
    assert_eq!(world.files["payload.bin"], data);
    assert!(world.read_record("payload.bin").unwrap().is_none());
    assert_eq!(world.progress[0].phase, DownloadPhase::Probing);
    // The chunk size is raised to the smallest one.
    assert_eq!(world.progress[1].total_chunks, Some(8));
}

#[test]
fn fallback_to_single_stream_on_rate_limit() {
    let data = payload(128 * 1024);
    let mut world = world(data.clone(), true);
    let summary = world
        .download(
            "http://127.0.0.1/rate-limited.bin",
            "rate-limited.bin",
            DownloadOptions {
                chunk_size: 32 * 1024,
                ..options()
            },
        )
        .unwrap();

    assert_eq!(summary.total_bytes, data.len() as u64);
    assert_eq!(world.files["rate-limited.bin"], data);
    assert!(world.read_record("rate-limited.bin").unwrap().is_none());
    assert_eq!(
        world.pauses,
        vec![3 * SEC, 4 * SEC, 5 * SEC, 6 * SEC, 7 * SEC, 3 * SEC]
    );
}

fn interrupted(world: &mut World, name: &str, chunk_size: usize) {
    let partial = format!("{name}.dl");
    let mut file = world.data[..chunk_size].to_vec();
    file.resize(world.data.len(), 0);
    world.files.insert(partial.clone(), file);
    let state = InlineDownloadState::new(
        DownloadKind::Http,
        format!("http://127.0.0.1/{name}"),
        world.data.len() as u64,
        chunk_size as u64,
        vec![true, false],
        Some("\"test\"".to_string()),
        None,
    );
    world.write_record(&partial, world.data.len() as u64, &state);
}

#[test]
fn resumes_from_existing_dl_file() {
    let data = payload(256 * 1024);
    let mut world = world(data.clone(), false);
    let chunk_size = 128 * 1024;
    interrupted(&mut world, "resume_test.bin", chunk_size);

    let summary = world
        .download(
            "http://127.0.0.1/resume_test.bin",
            "resume_test.bin",
            DownloadOptions {
                chunk_size: chunk_size as u64,
                resume: true,
                ..options()
            },
        )
        .unwrap();

    assert_eq!(summary.total_bytes, data.len() as u64);
    assert!(summary.resumed);
    assert_eq!(world.files["resume_test.bin"], data);
    assert!(!world.files.contains_key("resume_test.bin.dl"));
    assert!(world.read_record("resume_test.bin").unwrap().is_none());
}

#[test]
fn resumes_from_existing_single_stream_file() {
    let data = payload(256 * 1024);
    let mut world = world(data.clone(), false);
    let chunk_size = 128 * 1024;
    world.files.insert(
        "resume_single_test.bin.dl".to_string(),
        data[..chunk_size].to_vec(),
    );

    let summary = world
        .download(
            "http://127.0.0.1/resume_single_test.bin",
            "resume_single_test.bin",
            DownloadOptions {
                resume: true,
                ..options()
            },
        )
        .unwrap();

    assert_eq!(summary.total_bytes, data.len() as u64);
    assert!(summary.resumed);
    assert_eq!(world.files["resume_single_test.bin"], data);
    assert!(!world.files.contains_key("resume_single_test.bin.dl"));
}

#[test]
fn resumes_from_existing_dl_file_adopts_chunk_size() {
    let data = payload(256 * 1024);
    let mut world = world(data.clone(), false);
    interrupted(&mut world, "resume_adopt_test.bin", 128 * 1024);

    let summary = world
        .download(
            "http://127.0.0.1/resume_adopt_test.bin",
            "resume_adopt_test.bin",
            DownloadOptions {
                resume: true,
                ..options()
            },
        )
        .unwrap();

    assert_eq!(summary.total_bytes, data.len() as u64);
    assert!(summary.resumed);
    assert_eq!(world.files["resume_adopt_test.bin"], data);
    assert!(!world.files.contains_key("resume_adopt_test.bin.dl"));
    assert!(world.read_record("resume_adopt_test.bin").unwrap().is_none());
}

#[test]
fn resumes_from_pre_allocated_parallel_file_without_state() {
    let data = payload(5 * 1024 * 1024);
    let mut world = world(data.clone(), false);
    world
        .files
        .insert("pre_allocated.bin.dl".to_string(), vec![0; data.len()]);

    let summary = world
        .download(
            "http://127.0.0.1/pre_allocated.bin",
            "pre_allocated.bin",
            DownloadOptions {
                chunk_size: 128 * 1024,
                resume: true,
                ..options()
            },
        )
        .unwrap();

    assert_eq!(summary.total_bytes, data.len() as u64);
    assert_eq!(world.files["pre_allocated.bin"], data);
    assert!(!world.files.contains_key("pre_allocated.bin.dl"));
    assert!(
        world.progress.iter().any(|progress| progress.active_workers > 1),
        "Should have run parallel download with multiple workers"
    );
}

#[test]
fn dynamic_connections_selection_adjusts_workers() {
    let data = payload(5 * 1024 * 1024);
    let mut world = world(data.clone(), false);
    let summary = world
        .download(
            "http://127.0.0.1/dynamic_test.bin",
            "dynamic_test.bin",
            DownloadOptions {
                connections: None,
                chunk_size: 128 * 1024,
                ..options()
            },
        )
        .unwrap();

    assert_eq!(summary.total_bytes, data.len() as u64);
    assert_eq!(world.files["dynamic_test.bin"], data);
    assert!(
        world.progress.iter().any(|progress| progress.active_workers > 4),
        "Should have run parallel download with dynamic workers"
    );
}

#[test]
fn one_connection_and_no_resume_start_afresh() {
    let data = payload(1000);
    let mut world = world(data.clone(), false);
    world.files.insert("x.dl".to_string(), vec![9; 10]);
    let summary = world
        .download(
            "http://127.0.0.1/x",
            "x",
            DownloadOptions {
                connections: Some(1),
                resume: false,
                ..options()
            },
        )
        .unwrap();
    assert!(!summary.resumed);
    assert_eq!(summary.output_path, "x");
    assert_eq!(world.files["x"], data);
}

#[test]
fn single_stream_takes_up_a_parallel_download() {
    let data = payload(256 * 1024);
    let mut world = world(data.clone(), false);
    interrupted(&mut world, "s.bin", 128 * 1024);
    let summary = world
        .download(
            "http://127.0.0.1/s.bin?token=1",
            "s.bin",
            DownloadOptions {
                connections: Some(1),
                ..options()
            },
        )
        .unwrap();
    assert!(summary.resumed);
    assert_eq!(summary.downloaded_bytes, data.len() as u64);
    assert_eq!(world.files["s.bin"], data);
}

fn fresh(options: DownloadOptions) -> HttpDownload {
    HttpDownload::new(
        "http://a/b".to_string(),
        "b".to_string(),
        "b.dl".to_string(),
        options,
    )
}

#[test]
fn failures_that_no_retry_mends_end_the_download() {
    let failure = || DlError::Io("disk full".to_string());
    let mut plan = fresh(options());
    assert!(matches!(
        plan.step(HttpEvent::Probed(Err(DlError::Http("refused".to_string())))),
        HttpAction::Finish(Err(DlError::Http(_)))
    ));
    assert!(matches!(plan.step(HttpEvent::Paused), HttpAction::Wait));

    let probe = world(payload(100), false).probe();
    let mut plan = fresh(DownloadOptions {
        resume: false,
        ..options()
    });
    assert!(matches!(
        plan.step(HttpEvent::Probed(Ok(probe.clone()))),
        HttpAction::RunParallel
    ));
    assert!(matches!(
        plan.step(HttpEvent::ParallelEnded(Err(failure()))),
        HttpAction::Finish(Err(DlError::Io(_)))
    ));

    let mut plan = fresh(DownloadOptions {
        resume: false,
        ..options()
    });
    plan.step(HttpEvent::Probed(Ok(probe)));
    let server = DlError::ServerError("busy".to_string());
    assert!(matches!(
        plan.step(HttpEvent::ParallelEnded(Err(server))),
        HttpAction::RunSingle(0)
    ));
    assert!(matches!(
        plan.step(HttpEvent::SingleEnded(Err(failure()))),
        HttpAction::Finish(Err(DlError::Io(_)))
    ));
}

#[test]
fn failed_rename_ends_the_download() {
    let mut world = world(payload(100), false);
    let mut plan = fresh(DownloadOptions {
        connections: Some(1),
        resume: false,
        ..options()
    });
    plan.step(HttpEvent::Probed(Ok(world.probe())));
    let summary = world.run_single(&plan, 0).unwrap();
    assert!(matches!(
        plan.step(HttpEvent::SingleEnded(Ok(summary))),
        HttpAction::Rename
    ));
    assert!(matches!(
        plan.step(HttpEvent::Renamed(Err(DlError::Io("busy".to_string())))),
        HttpAction::Finish(Err(DlError::Io(_)))
    ));
}

#[test]
fn parallel_download_needs_a_size() {
    let probe = HttpProbe {
        total_size: None,
        ranges_supported: true,
        etag: None,
        last_modified: None,
    };
    let refused = ParallelDownload::start(
        "u".to_string(),
        "o".to_string(),
        &DownloadOptions::default(),
        probe,
        None,
        0,
    );
    match refused {
        Err(error) => assert_eq!(
            error.to_text(),
            "无效的 HTTP 响应：缺少 Content-Length 响应头"
        ),
        Ok(_) => panic!("nothing can be cut without a size"),
    }
}

fn two_chunks(interval: u128) -> ParallelDownload {
    two_chunks_with(interval, true)
}

fn two_chunks_with(interval: u128, resume: bool) -> ParallelDownload {
    let probe = HttpProbe {
        total_size: Some(6),
        ranges_supported: true,
        etag: Some("e".to_string()),
        last_modified: None,
    };
    let options = DownloadOptions {
        connections: None,
        chunk_size: 3,
        metadata_flush_interval: interval,
        resume,
        ..DownloadOptions::default()
    };
    ParallelDownload::start("u".to_string(), "o".to_string(), &options, probe, None, 0)
        .unwrap_or_else(|_| panic!("the size is known"))
}

#[test]
fn state_is_recorded_at_intervals_and_at_the_end() {
    let mut download = two_chunks(5 * SEC);
    assert_eq!(download.launch(SEC), Launch::Spawn(2));
    let WorkerStep::Fetch(first) = download.next_step() else {
        panic!("a segment waits");
    };
    let WorkerStep::Fetch(second) = download.next_step() else {
        panic!("a segment waits");
    };
    assert_eq!((first.start, first.end, second.start, second.end), (0, 2, 3, 5));
    assert_eq!(download.progress(DownloadPhase::Downloading).active_workers, 2);
    let half = download.complete_segment(second.index, 2 * SEC);
    assert!(!half.should_flush && !half.is_final);
    assert_eq!(download.state_at(9).completed_chunks, vec![false, true]);
    assert_eq!(download.state_at(9).updated_at_unix_secs, 9);
    let whole = download.complete_segment(first.index, 3 * SEC);
    assert!(whole.should_flush && whole.is_final);
    assert_eq!(download.next_step(), WorkerStep::Drained);
    assert!(download.is_complete());

    let mut due = two_chunks(5 * SEC);
    due.launch(SEC);
    let WorkerStep::Fetch(segment) = due.next_step() else {
        panic!("a segment waits");
    };
    assert!(due.complete_segment(segment.index, 6 * SEC).should_flush);
}

#[test]
fn interruption_saves_the_state() {
    let mut download = two_chunks(SEC);
    match download.react(ParallelEvent::Interrupt) {
        ParallelAction::SaveAndAbort(error) => {
            assert_eq!(error.to_text(), "输入输出错误：用户中断了下载（Ctrl+C）")
        }
        _ => panic!("the user is obeyed"),
    }
    assert!(matches!(download.react(ParallelEvent::WorkerEnded), ParallelAction::Wait));
}

#[test]
fn no_record_is_kept_without_resume() {
    let mut download = two_chunks_with(0, false);
    assert!(!download.target().keeps_record);
    download.launch(SEC);
    for _ in 0..2 {
        let WorkerStep::Fetch(segment) = download.next_step() else {
            panic!("a segment waits");
        };
        assert!(!download.complete_segment(segment.index, 9 * SEC).should_flush);
    }
    assert!(download.is_complete());
    match download.react(ParallelEvent::Interrupt) {
        ParallelAction::Abort(error) => {
            assert_eq!(error.to_text(), "输入输出错误：用户中断了下载（Ctrl+C）")
        }
        _ => panic!("nothing is to be saved"),
    }
    let mut kept = two_chunks_with(0, true);
    kept.launch(SEC);
    let WorkerStep::Fetch(segment) = kept.next_step() else {
        panic!("a segment waits");
    };
    assert!(kept.complete_segment(segment.index, SEC).should_flush);

    let data = payload(256 * 1024);
    for (resume, least) in [(false, 0), (true, 1)] {
        let mut world = world(data.clone(), false);
        interrupted(&mut world, "n.bin", 128 * 1024);
        let summary = world
            .download(
                "http://127.0.0.1/n.bin",
                "n.bin",
                DownloadOptions {
                    chunk_size: 128 * 1024,
                    resume,
                    ..options()
                },
            )
            .unwrap();
        assert_eq!(summary.resumed, resume);
        assert_eq!(world.records, least);
        assert_eq!(world.files["n.bin"], data);
    }
}

#[test]
fn complete_download_loses_its_record_and_fetches_nothing() {
    let mut world = world(b"payload".to_vec(), true);
    world.files.insert("p.dl".to_string(), b"payload".to_vec());
    let url = "http://h/f";
    let state = InlineDownloadState::new(
        DownloadKind::Http,
        url.to_string(),
        7,
        2,
        vec![true; 4],
        None,
        None,
    );
    world.write_record("p.dl", 7, &state);
    let probe = HttpProbe {
        total_size: Some(7),
        ranges_supported: true,
        etag: None,
        last_modified: None,
    };
    let mut download = ParallelDownload::start(
        url.to_string(),
        "p.dl".to_string(),
        &DownloadOptions {
            chunk_size: 2,
            ..DownloadOptions::default()
        },
        probe,
        world.read_record("p.dl").unwrap(),
        0,
    )
    .unwrap_or_else(|_| panic!("the size is known"));
    assert_eq!(download.target().fresh_len(), None);
    let Launch::Finish(len) = download.launch(1) else {
        panic!("nothing is left to fetch");
    };
    assert_eq!(len, download.target().final_len());
    world.files.get_mut("p.dl").unwrap().truncate(len as usize);
    assert_eq!(world.files["p.dl"], b"payload");
    assert!(world.read_record("p.dl").unwrap().is_none());
    let summary = download.summary();
    assert_eq!(summary.total_bytes, 7);
    assert_eq!(summary.downloaded_bytes, 7);
    assert_eq!(summary.source, url);
    assert_eq!(summary.output_path, "p.dl");
    assert!(summary.resumed);
}

#[test]
fn workers_stop_when_they_are_asked_to() {
    let mut download = two_chunks(SEC);
    download.launch(0);
    let fast = SpeedReading { speed: 7, improved: true };
    let slow = SpeedReading { speed: 1, improved: false };
    assert_eq!(download.speed_window(SEC), Some((0, SEC)));
    assert!(matches!(
        download.react(ParallelEvent::Tick { now: SEC, reading: fast }),
        ParallelAction::Spawn { count: 2, start_id: 2 }
    ));
    assert!(matches!(
        download.react(ParallelEvent::Tick { now: 2 * SEC, reading: slow }),
        ParallelAction::Wait
    ));
    assert_eq!(download.next_step(), WorkerStep::Stop);
    assert_eq!(download.next_step(), WorkerStep::Stop);
    assert!(matches!(download.next_step(), WorkerStep::Fetch(_)));
    assert_eq!(download.scaler().current_worker_count, 2);
}

#[test]
fn records_fit_the_download_they_were_made_for() {
    let state = InlineDownloadState::new(
        DownloadKind::Http,
        "http://a/b?x".to_string(),
        7,
        2,
        vec![true, false, true, true],
        Some("e".to_string()),
        None,
    );
    assert!(state.updated_at_unix_secs > 1_600_000_000);
    assert_eq!(state.completed_bytes(), 5);
    let fits = |source: &str, total: u64, chunk: u64, etag: Option<&str>| {
        state.is_compatible_with(DownloadKind::Http, source, total, chunk, etag, Some("m"))
    };
    assert!(fits("http://a/b", 7, 2, Some("e")));
    assert!(fits("http://a/b", 7, 2, None));
    assert!(!fits("http://a/c", 7, 2, Some("e")));
    assert!(!fits("http://a/b", 8, 2, Some("e")));
    assert!(!fits("http://a/b", 7, 3, Some("e")));
    assert!(!fits("http://a/b", 7, 2, Some("f")));
    assert!(!state.is_compatible_with(DownloadKind::Torrent, "http://a/b", 7, 2, None, None));
}

#[test]
fn client_brings_its_options_into_range() {
    let client = DlClient::new(DownloadOptions {
        connections: Some(0),
        chunk_size: 1,
        only_files: Some(vec![2]),
        ..DownloadOptions::default()
    });
    assert_eq!(client.options.connections, Some(1));
    assert_eq!(client.options.chunk_size, 64 * 1024);
    let source = DownloadSource::Http("http://a".to_string());
    assert!(matches!(
        client.download(source, "o".to_string()),
        DownloadTask::Http { url, output } if url == "http://a" && output == "o"
    ));
    let source = DownloadSource::Torrent(TorrentInput::from_source("magnet:x".to_string()));
    assert!(matches!(
        client.download(source, "o".to_string()),
        DownloadTask::Torrent { only_files: Some(numbers), .. } if numbers == vec![2]
    ));
    assert_eq!(DlClient::default().options.chunk_size, 2 * 1024 * 1024);
}

#[test]
fn options_carry_a_place_to_report_to() {
    let (sender, mut receiver) = tokio::sync::mpsc::unbounded_channel();
    let options = DownloadOptions::default().with_progress(sender);
    let plan = fresh(options);
    let news = plan.probing_progress();
    assert!(plan.options.progress.as_ref().unwrap().send(news).is_ok());
    assert_eq!(receiver.try_recv().unwrap().phase, DownloadPhase::Probing);
    assert_eq!(DownloadOptions::default().normalized().chunk_size, 2 * 1024 * 1024);
}

#[test]
fn torrents_are_taken_from_links_and_files() {
    let of = |source: &str| TorrentInput::from_source(source.to_string());
    assert!(matches!(of("magnet:x"), TorrentInput::Magnet(_)));
    assert!(matches!(of("http://a"), TorrentInput::TorrentUrl(_)));
    assert!(matches!(of("https://a"), TorrentInput::TorrentUrl(_)));
    assert!(matches!(of("a.torrent"), TorrentInput::TorrentFile(_)));
    assert_eq!(of("a.torrent").source_label(), "a.torrent");
    assert!(matches!(of("magnet:x").fetch(), TorrentFetch::Address(a) if a == "magnet:x"));
    assert!(matches!(of("a").fetch(), TorrentFetch::FileAt(path) if path == "a"));
}

#[test]
fn sessions_answer_as_they_were_asked() {
    assert!(accept_managed(Added::Managed).is_ok());
    assert_eq!(
        accept_managed(Added::Listed).unwrap_err().to_text(),
        "种子错误：种子意外以仅列出模式添加"
    );
    assert!(accept_listing(Added::Listed).is_ok());
    assert_eq!(
        accept_listing(Added::Managed).unwrap_err().to_text(),
        "种子错误：期望得到仅列出响应"
    );
}

#[test]
fn torrent_files_are_numbered_until_one_has_no_name() {
    let entry = |name: Result<&str, &str>| TorrentEntry {
        name: name.map(str::to_string).map_err(str::to_string),
        len: 5,
    };
    let files = number_files(vec![entry(Ok("a")), entry(Ok("b"))]).unwrap();
    assert_eq!(files, vec![(0, "a".to_string(), 5), (1, "b".to_string(), 5)]);
    let error = number_files(vec![entry(Ok("a")), entry(Err("x")), entry(Err("y"))]).unwrap_err();
    assert_eq!(error.to_text(), "种子错误：x");
}

#[test]
fn torrent_statistics_decide_what_is_next() {
    let source = "magnet:x".to_string();
    let dir = ".".to_string();
    let stats = |error: Option<&str>, finished: bool| TorrentStats {
        error: error.map(str::to_string),
        finished,
        total_bytes: 10,
        progress_bytes: 4,
    };
    assert!(matches!(torrent_step(&source, &dir, stats(None, false)), TorrentStep::Wait));
    assert!(matches!(
        torrent_step(&source, &dir, stats(Some("e"), true)),
        TorrentStep::Fail(DlError::Torrent(text)) if text == "e"
    ));
    match torrent_step(&source, &dir, stats(None, true)) {
        TorrentStep::Done(summary) => {
            assert_eq!(summary.kind, DownloadKind::Torrent);
            assert_eq!(summary.downloaded_bytes, 4);
            assert!(summary.resumed);
        }
        _ => panic!("the torrent is finished"),
    }
    let progress = torrent_progress(&source, &dir, &stats(None, true));
    assert_eq!(progress.phase, DownloadPhase::Complete);
    assert_eq!(progress.total_bytes, Some(10));
    assert_eq!(
        torrent_progress(&source, &dir, &stats(None, false)).phase,
        DownloadPhase::Downloading
    );
}
