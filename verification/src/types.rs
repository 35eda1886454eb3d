//! The plain data of a download: its options, its progress, the record kept
//! beside the bytes, and the summary.

use tokio::sync::mpsc::{UnboundedReceiver, UnboundedSender};
use vstd::prelude::*;

pub use crate::chunks::{build_segments, chunk_count, segment_len};
use crate::chunks::{completed_total, finished_bytes};
use crate::links::{
    parsed_url, sources_agree, urls_are_compatible, validators_agree, weak_validator_matches,
};
use crate::text::{as_text, str_view, string_view};

verus! {

/// The version that the user agent names.
pub const VERSION: &'static str = "0.1.0";

/// The number of connections for which a chunk size is chosen when the options
/// name none.
pub const DEFAULT_CONNECTIONS: usize = 8;

/// The chunk size, in bytes, when the options name none.
pub const DEFAULT_CHUNK_SIZE: u64 = 2 * 1024 * 1024;

/// The smallest chunk size, in bytes, that the options may ask for.
pub const MIN_CHUNK_SIZE: u64 = 64 * 1024;

/// The time between two records of the state, in nanoseconds.
pub const DEFAULT_METADATA_FLUSH_INTERVAL: u128 = 5_000_000_000;

/// The version of the record kept beside the bytes.
pub const STATE_VERSION: u16 = 1;

#[derive(Debug, Clone, Copy, PartialEq, Eq, Structural)]
pub enum DisplayLanguage {
    Zh,
    En,
}

/// `tokio::sync::mpsc::UnboundedSender`, the sending end of a channel. Nothing
/// is claimed of it: it is carried to the code that sends on it.
#[verifier::external_type_specification]
#[verifier::external_body]
#[verifier::reject_recursive_types(T)]
pub struct ExUnboundedSender<T>(UnboundedSender<T>);

/// Where the progress of a download is reported.
pub type ProgressSender = UnboundedSender<DownloadProgress>;

/// Where the progress of a download comes from.
pub type ProgressReceiver = UnboundedReceiver<DownloadProgress>;

/// What a download is asked to do.
#[derive(Debug, Clone)]
pub struct DownloadOptions {
    /// The number of connections; `None` lets it follow the measured speed.
    pub connections: Option<usize>,
    pub chunk_size: u64,
    pub resume: bool,
    pub overwrite: bool,
    pub user_agent: String,
    /// The time between two records of the state, in nanoseconds.
    pub metadata_flush_interval: u128,
    pub progress: Option<ProgressSender>,
    pub only_files: Option<Vec<usize>>,
    /// Maximum aggregate HTTP download rate in bytes per second.
    pub rate_limit: Option<u64>,
    /// Additional HTTP headers applied to every request.
    pub headers: Vec<(String, String)>,
    /// Optional HTTP proxy URL.
    pub proxy: Option<String>,
    pub language: DisplayLanguage,
}

impl Default for DownloadOptions {
    fn default() -> (options: Self)
        ensures
            options.connections is None,
            options.chunk_size == DEFAULT_CHUNK_SIZE == 2097152,
            options.resume,
            !options.overwrite,
            options.user_agent@ == "dl/"@ + VERSION@,
            options.metadata_flush_interval == DEFAULT_METADATA_FLUSH_INTERVAL == 5_000_000_000,
            options.progress is None,
            options.only_files is None,
            options.rate_limit is None,
            options.headers@.len() == 0,
            options.proxy is None,
            options.language == DisplayLanguage::En,
    {
        let mut user_agent = "dl/".to_owned();
        user_agent.append(VERSION);
        DownloadOptions {
            connections: None,
            chunk_size: DEFAULT_CHUNK_SIZE,
            resume: true,
            overwrite: false,
            user_agent,
            metadata_flush_interval: DEFAULT_METADATA_FLUSH_INTERVAL,
            progress: None,
            only_files: None,
            rate_limit: None,
            headers: Vec::new(),
            proxy: None,
            language: DisplayLanguage::En,
        }
    }
}

/// The options with what is out of range brought into it: at least one
/// connection, where a number is named, and a chunk size no smaller than the
/// smallest.
pub open spec fn normal_options(options: DownloadOptions) -> DownloadOptions {
    DownloadOptions {
        connections: match options.connections {
            Some(n) => Some(
                if n < 1 {
                    1
                } else {
                    n
                },
            ),
            None => None,
        },
        chunk_size: if options.chunk_size < MIN_CHUNK_SIZE {
            MIN_CHUNK_SIZE
        } else {
            options.chunk_size
        },
        ..options
    }
}

impl DownloadOptions {
    /// The options with a place to report progress to.
    pub fn with_progress(self, progress: ProgressSender) -> (options: Self)
        ensures
            options == (DownloadOptions { progress: Some(progress), ..self }),
    {
        let mut options = self;
        options.progress = Some(progress);
        options
    }

    /// The options with what is out of range brought into it.
    pub fn normalized(self) -> (options: Self)
        ensures
            options == normal_options(self),
    {
        let mut options = self;
        if let Some(n) = options.connections {
            if n < 1 {
                options.connections = Some(1);
            }
        }
        if options.chunk_size < MIN_CHUNK_SIZE {
            options.chunk_size = MIN_CHUNK_SIZE;
        }
        options
    }
}

/// Bringing options into range once is enough.
pub proof fn normal_options_stay(options: DownloadOptions)
    ensures
        normal_options(normal_options(options)) == normal_options(options),
{
}

#[derive(Debug, Clone, Copy, PartialEq, Eq, Structural)]
pub enum DownloadKind {
    Http,
    Torrent,
}

#[derive(Debug, Clone, Copy, PartialEq, Eq, Structural)]
pub enum DownloadPhase {
    Probing,
    Downloading,
    PersistingState,
    Finalizing,
    Complete,
}

/// How far a download has come.
#[derive(Debug, Clone)]
pub struct DownloadProgress {
    pub kind: DownloadKind,
    pub phase: DownloadPhase,
    pub source: String,
    pub output_path: String,
    pub downloaded_bytes: u64,
    pub total_bytes: Option<u64>,
    pub active_workers: usize,
    pub completed_chunks: Option<usize>,
    pub total_chunks: Option<usize>,
}

/// One chunk of a file as a byte range, both ends included.
#[derive(Debug, Clone, Copy, PartialEq, Eq, Structural)]
pub struct Segment {
    pub index: usize,
    pub start: u64,
    pub end: u64,
}

impl Segment {
    /// The number of bytes in the range.
    pub fn len(&self) -> (len: u64)
        requires
            self.start <= self.end,
            self.end - self.start < u64::MAX,
        ensures
            len == self.end - self.start + 1,
    {
        self.end - self.start + 1
    }
}

/// The record of a download that is kept behind its bytes until it is done.
#[derive(Debug, Clone)]
pub struct InlineDownloadState {
    pub version: u16,
    pub kind: DownloadKind,
    pub source: String,
    pub total_size: u64,
    pub chunk_size: u64,
    pub completed_chunks: Vec<bool>,
    pub etag: Option<String>,
    pub last_modified: Option<String>,
    pub updated_at_unix_secs: u64,
}

/// `std::time::SystemTime::now`, as the number of seconds since the start of
/// 1970. Nothing is claimed of the number: it depends on the clock.
#[verifier::external_body]
fn unix_now() -> (secs: u64) {
    std::time::SystemTime::now()
        .duration_since(std::time::UNIX_EPOCH)
        .unwrap_or_default()
        .as_secs()
}

impl InlineDownloadState {
    /// A record of the given download at time `now`.
    pub fn new_at(
        kind: DownloadKind,
        source: String,
        total_size: u64,
        chunk_size: u64,
        completed_chunks: Vec<bool>,
        etag: Option<String>,
        last_modified: Option<String>,
        now: u64,
    ) -> (state: Self)
        ensures
            state == (InlineDownloadState {
                version: STATE_VERSION,
                kind,
                source,
                total_size,
                chunk_size,
                completed_chunks,
                etag,
                last_modified,
                updated_at_unix_secs: now,
            }),
    {
        InlineDownloadState {
            version: STATE_VERSION,
            kind,
            source,
            total_size,
            chunk_size,
            completed_chunks,
            etag,
            last_modified,
            updated_at_unix_secs: now,
        }
    }

    /// A record of the given download at the present time.
    pub fn new(
        kind: DownloadKind,
        source: String,
        total_size: u64,
        chunk_size: u64,
        completed_chunks: Vec<bool>,
        etag: Option<String>,
        last_modified: Option<String>,
    ) -> (state: Self)
        ensures
            state == (InlineDownloadState {
                version: STATE_VERSION,
                kind,
                source,
                total_size,
                chunk_size,
                completed_chunks,
                etag,
                last_modified,
                updated_at_unix_secs: state.updated_at_unix_secs,
            }),
    {
        InlineDownloadState::new_at(
            kind,
            source,
            total_size,
            chunk_size,
            completed_chunks,
            etag,
            last_modified,
            unix_now(),
        )
    }

    /// The number of bytes in the finished chunks.
    pub fn completed_bytes(&self) -> (bytes: u64)
        ensures
            bytes == finished_bytes(
                self.completed_chunks@,
                self.total_size as int,
                self.chunk_size as int,
            ),
            bytes <= self.total_size,
    {
        completed_total(self.completed_chunks.as_slice(), self.total_size, self.chunk_size)
    }

    /// The record is one of the given resource: its chunk size aside, it fits
    /// the download.
    pub open spec fn describes(
        self,
        kind: DownloadKind,
        source: Seq<char>,
        total_size: u64,
        etag: Option<Seq<char>>,
        last_modified: Option<Seq<char>>,
    ) -> bool {
        &&& self.version == STATE_VERSION
        &&& self.kind == kind
        &&& sources_agree(self.source@, source)
        &&& self.total_size == total_size
        &&& validators_agree(string_view(self.etag), etag)
        &&& validators_agree(string_view(self.last_modified), last_modified)
    }

    /// Whether the record is one of the given resource.
    pub fn is_record_of(
        &self,
        kind: DownloadKind,
        source: &str,
        total_size: u64,
        etag: Option<&str>,
        last_modified: Option<&str>,
    ) -> (r: bool)
        ensures
            r == self.describes(
                kind,
                source@,
                total_size,
                str_view(etag),
                str_view(last_modified),
            ),
            self.etag is Some && etag is Some && self.etag->0@ != etag->0@ ==> !r,
            self.last_modified is Some && last_modified is Some && self.last_modified->0@
                != last_modified->0@ ==> !r,
            self.total_size != total_size || self.kind != kind || self.version != 1 ==> !r,
    {
        self.version == STATE_VERSION && self.kind == kind && urls_are_compatible(
            self.source.as_str(),
            source,
        ) && self.total_size == total_size && weak_validator_matches(as_text(&self.etag), etag)
            && weak_validator_matches(as_text(&self.last_modified), last_modified)
    }

    /// Whether the record can be resumed by the given download: it is one of
    /// the same resource, cut into chunks of the same size.
    pub fn is_compatible_with(
        &self,
        kind: DownloadKind,
        source: &str,
        total_size: u64,
        chunk_size: u64,
        etag: Option<&str>,
        last_modified: Option<&str>,
    ) -> (r: bool)
        ensures
            r == (self.describes(
                kind,
                source@,
                total_size,
                str_view(etag),
                str_view(last_modified),
            ) && self.chunk_size == chunk_size),
            self.etag is Some && etag is Some && self.etag->0@ != etag->0@ ==> !r,
            self.last_modified is Some && last_modified is Some && self.last_modified->0@
                != last_modified->0@ ==> !r,
            self.total_size != total_size || self.kind != kind || self.version != 1 || self.chunk_size
                != chunk_size ==> !r,
    {
        self.chunk_size == chunk_size && self.is_record_of(
            kind,
            source,
            total_size,
            etag,
            last_modified,
        )
    }
}

/// A record of the current version describes the download that it was made for.
pub proof fn record_describes_its_download(state: InlineDownloadState)
    requires
        state.version == STATE_VERSION,
    ensures
        state.describes(
            state.kind,
            state.source@,
            state.total_size,
            string_view(state.etag),
            string_view(state.last_modified),
        ),
{
}

/// What a download came to.
#[derive(Debug, Clone)]
pub struct DownloadSummary {
    pub kind: DownloadKind,
    pub source: String,
    pub output_path: String,
    pub total_bytes: u64,
    pub downloaded_bytes: u64,
    pub resumed: bool,
}

/// Options brought into range ask for at least one connection and for chunks of
/// at least 64 KiB, and are otherwise what they were.
pub proof fn normal_options_are_in_range(options: DownloadOptions)
    ensures
        normal_options(options).connections is Some == options.connections is Some,
        options.connections is Some && options.connections->0 >= 1 ==> normal_options(
            options,
        ).connections == options.connections,
        options.connections == Some(0usize) ==> normal_options(options).connections == Some(
            1usize,
        ),
        options.chunk_size >= 65536 ==> normal_options(options).chunk_size == options.chunk_size,
        options.chunk_size < 65536 ==> normal_options(options).chunk_size == 65536,
        normal_options(options).resume == options.resume,
        normal_options(options).overwrite == options.overwrite,
        normal_options(options).user_agent == options.user_agent,
        normal_options(options).metadata_flush_interval == options.metadata_flush_interval,
        normal_options(options).progress == options.progress,
        normal_options(options).only_files == options.only_files,
        normal_options(options).rate_limit == options.rate_limit,
        normal_options(options).headers == options.headers,
        normal_options(options).proxy == options.proxy,
        normal_options(options).language == options.language,
{
}

/// A record does not describe a resource that has changed: not one of which the
/// server names another `ETag`, another `Last-Modified` or another size than
/// the record does, not one of another kind, and none where the record is of
/// another version.
pub proof fn changed_resource_is_not_described(
    state: InlineDownloadState,
    kind: DownloadKind,
    source: Seq<char>,
    total_size: u64,
    etag: Option<Seq<char>>,
    last_modified: Option<Seq<char>>,
)
    requires
        ({
            ||| state.etag is Some && etag is Some && state.etag->0@ != etag->0
            ||| state.last_modified is Some && last_modified is Some && state.last_modified->0@
                != last_modified->0
            ||| state.total_size != total_size
            ||| state.kind != kind
            ||| state.version != 1
        }),
    ensures
        !state.describes(kind, source, total_size, etag, last_modified),
{
}

/// A record of the current version describes the resource at its own address,
/// of its own kind and size, as long as the server names no `ETag` and no
/// `Last-Modified` that differs from one on record.
pub proof fn unchanged_resource_is_described(
    state: InlineDownloadState,
    etag: Option<Seq<char>>,
    last_modified: Option<Seq<char>>,
)
    requires
        state.version == 1,
        state.etag is Some && etag is Some ==> state.etag->0@ == etag->0,
        state.last_modified is Some && last_modified is Some ==> state.last_modified->0@
            == last_modified->0,
    ensures
        state.describes(state.kind, state.source@, state.total_size, etag, last_modified),
{
}

/// A record describes a resource at an address that is written otherwise only
/// where both are web addresses that agree in scheme, host, port and path.
pub proof fn record_describes_its_own_address(
    state: InlineDownloadState,
    kind: DownloadKind,
    source: Seq<char>,
    total_size: u64,
    etag: Option<Seq<char>>,
    last_modified: Option<Seq<char>>,
)
    requires
        state.source@ != source,
        state.describes(kind, source, total_size, etag, last_modified),
    ensures
        "http://"@.is_prefix_of(source) || "https://"@.is_prefix_of(source),
        "http://"@.is_prefix_of(state.source@) || "https://"@.is_prefix_of(state.source@),
        parsed_url(source) is Some,
        parsed_url(state.source@) is Some,
        parsed_url(source)->0.scheme == parsed_url(state.source@)->0.scheme,
        parsed_url(source)->0.host == parsed_url(state.source@)->0.host,
        parsed_url(source)->0.port == parsed_url(state.source@)->0.port,
        parsed_url(source)->0.path == parsed_url(state.source@)->0.path,
{
}

} // verus!
