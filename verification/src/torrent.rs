//! Downloads of torrents: where one comes from, and what its statistics mean.

use vstd::prelude::*;

use crate::error::{DlError, Result};
use crate::text::starts_with;
use crate::types::{
    DownloadKind, DownloadPhase, DownloadProgress, DownloadSummary, ProgressSender,
};

verus! {

/// Where a torrent comes from.
#[derive(Debug, Clone)]
pub enum TorrentInput {
    Magnet(String),
    /// The path of a file.
    TorrentFile(String),
    TorrentUrl(String),
}

/// What the download of a torrent is asked to do.
#[derive(Debug, Clone)]
pub struct TorrentOptions {
    pub progress: Option<ProgressSender>,
    /// The numbers of the files to fetch; `None` for all of them.
    pub only_files: Option<Vec<usize>>,
}

impl Default for TorrentOptions {
    fn default() -> (options: Self)
        ensures
            options.progress is None,
            options.only_files is None,
    {
        TorrentOptions { progress: None, only_files: None }
    }
}

/// How a torrent is handed to a session.
#[derive(Debug)]
pub enum TorrentFetch {
    /// By its address.
    Address(String),
    /// As the contents of the file at this path.
    FileAt(String),
}

/// What a source is taken for: a magnet link, a web address, or else the path of
/// a file.
pub open spec fn input_of(source: String) -> TorrentInput {
    if "magnet:"@.is_prefix_of(source@) {
        TorrentInput::Magnet(source)
    } else if "http://"@.is_prefix_of(source@) || "https://"@.is_prefix_of(source@) {
        TorrentInput::TorrentUrl(source)
    } else {
        TorrentInput::TorrentFile(source)
    }
}

impl TorrentInput {
    /// Tells a magnet link and a web address from the path of a file.
    pub fn from_source(source: String) -> (input: Self)
        ensures
            input == input_of(source),
    {
        if starts_with(source.as_str(), "magnet:") {
            TorrentInput::Magnet(source)
        } else if starts_with(source.as_str(), "http://") || starts_with(
            source.as_str(),
            "https://",
        ) {
            TorrentInput::TorrentUrl(source)
        } else {
            TorrentInput::TorrentFile(source)
        }
    }

    /// The address or the path that the torrent comes from.
    pub open spec fn label(self) -> String {
        match self {
            TorrentInput::Magnet(source) => source,
            TorrentInput::TorrentFile(path) => path,
            TorrentInput::TorrentUrl(source) => source,
        }
    }

    /// The address or the path that the torrent comes from.
    pub fn source_label(&self) -> (label: String)
        ensures
            label == self.label(),
    {
        match self {
            TorrentInput::Magnet(source) => source.clone(),
            TorrentInput::TorrentFile(path) => path.clone(),
            TorrentInput::TorrentUrl(source) => source.clone(),
        }
    }

    /// How the torrent is handed to a session: a file is read first.
    pub open spec fn handed(self) -> TorrentFetch {
        match self {
            TorrentInput::Magnet(source) => TorrentFetch::Address(source),
            TorrentInput::TorrentUrl(source) => TorrentFetch::Address(source),
            TorrentInput::TorrentFile(path) => TorrentFetch::FileAt(path),
        }
    }

    /// How the torrent is handed to a session: a file is read first.
    pub fn fetch(self) -> (fetch: TorrentFetch)
        ensures
            fetch == self.handed(),
    {
        match self {
            TorrentInput::Magnet(source) => TorrentFetch::Address(source),
            TorrentInput::TorrentUrl(source) => TorrentFetch::Address(source),
            TorrentInput::TorrentFile(path) => TorrentFetch::FileAt(path),
        }
    }
}

/// A source is the label of what it is taken for.
pub proof fn label_is_the_source(source: String)
    ensures
        input_of(source).label() == source,
{
}

/// What a session made of a torrent that was added to it.
#[derive(Debug, Clone, Copy, PartialEq, Eq, Structural)]
pub enum Added {
    /// It is being fetched.
    Managed,
    /// Its files were listed, no more.
    Listed,
}

/// Accepts a torrent that is being fetched.
pub fn accept_managed(added: Added) -> (r: Result<()>)
    ensures
        match r {
            Ok(_) => added is Managed,
            Err(error) => added is Listed && (error matches DlError::Torrent(text) && text@
                == "种子意外以仅列出模式添加"@),
        },
{
    match added {
        Added::Managed => Ok(()),
        Added::Listed => Err(DlError::Torrent("种子意外以仅列出模式添加".to_owned())),
    }
}

/// Accepts a torrent whose files were listed.
pub fn accept_listing(added: Added) -> (r: Result<()>)
    ensures
        match r {
            Ok(_) => added is Listed,
            Err(error) => added is Managed && (error matches DlError::Torrent(text) && text@
                == "期望得到仅列出响应"@),
        },
{
    match added {
        Added::Listed => Ok(()),
        Added::Managed => Err(DlError::Torrent("期望得到仅列出响应".to_owned())),
    }
}

/// A file of a torrent: its name, or why there is none, and its size.
#[derive(Debug)]
pub struct TorrentEntry {
    pub name: std::result::Result<String, String>,
    pub len: u64,
}

/// The files of a torrent, numbered from zero on; the reason of the first one
/// that has no name, if there is one.
pub fn number_files(entries: Vec<TorrentEntry>) -> (r: Result<Vec<(usize, String, u64)>>)
    ensures
        match r {
            Ok(files) => {
                &&& files@.len() == entries@.len()
                &&& forall|i: int|
                    0 <= i < entries@.len() ==> {
                        &&& (#[trigger] entries@[i]).name is Ok
                        &&& files@[i] == (i as usize, entries@[i].name->Ok_0, entries@[i].len)
                    }
            },
            Err(error) => exists|k: int|
                {
                    &&& 0 <= k < entries@.len()
                    &&& (#[trigger] entries@[k]).name is Err
                    &&& error == DlError::Torrent(entries@[k].name->Err_0)
                    &&& forall|i: int| 0 <= i < k ==> (#[trigger] entries@[i]).name is Ok
                },
        },
{
    let mut files: Vec<(usize, String, u64)> = Vec::new();
    let mut i: usize = 0;
    while i < entries.len()
        invariant
            i <= entries@.len(),
            files@.len() == i,
            forall|j: int|
                0 <= j < i ==> {
                    &&& (#[trigger] entries@[j]).name is Ok
                    &&& files@[j] == (j as usize, entries@[j].name->Ok_0, entries@[j].len)
                },
        decreases entries@.len() - i,
    {
        match &entries[i].name {
            Ok(name) => {
                files.push((i, name.clone(), entries[i].len));
            },
            Err(reason) => {
                let error = DlError::Torrent(reason.clone());
                assert(entries@[i as int].name is Err);
                return Err(error);
            },
        }
        i += 1;
    }
    Ok(files)
}

/// The statistics of a torrent that is being fetched.
#[derive(Debug)]
pub struct TorrentStats {
    pub error: Option<String>,
    pub finished: bool,
    pub total_bytes: u64,
    pub progress_bytes: u64,
}

/// What the download of a torrent does next.
pub enum TorrentStep {
    Fail(DlError),
    Done(DownloadSummary),
    /// Look at the statistics again after a while.
    Wait,
}

/// What the statistics of a torrent mean: an error ends the download, whether
/// or not it is finished.
pub open spec fn step_after(
    source: String,
    output_dir: String,
    stats: TorrentStats,
) -> TorrentStep {
    match stats.error {
        Some(reason) => TorrentStep::Fail(DlError::Torrent(reason)),
        None => if stats.finished {
            TorrentStep::Done(
                DownloadSummary {
                    kind: DownloadKind::Torrent,
                    source,
                    output_path: output_dir,
                    total_bytes: stats.total_bytes,
                    downloaded_bytes: stats.progress_bytes,
                    resumed: true,
                },
            )
        } else {
            TorrentStep::Wait
        },
    }
}

/// A torrent ends at its first error, even one that is finished, and otherwise
/// when it is finished, with all that its statistics tell.
pub proof fn torrent_ends_in_time(source: String, output_dir: String, stats: TorrentStats)
    ensures
        stats.error matches Some(reason) ==> step_after(source, output_dir, stats)
            == TorrentStep::Fail(DlError::Torrent(reason)),
        stats.error is None && !stats.finished ==> step_after(source, output_dir, stats) is Wait,
        stats.error is None && stats.finished ==> (step_after(
            source,
            output_dir,
            stats,
        ) matches TorrentStep::Done(summary) && summary.kind == DownloadKind::Torrent
            && summary.source == source && summary.output_path == output_dir
            && summary.total_bytes == stats.total_bytes && summary.downloaded_bytes
            == stats.progress_bytes && summary.resumed),
{
}

/// Decides what the statistics of a torrent mean: an error ends the download,
/// whether or not it is finished.
pub fn torrent_step(source: &String, output_dir: &String, stats: TorrentStats) -> (step:
    TorrentStep)
    ensures
        step == step_after(*source, *output_dir, stats),
{
    match stats.error {
        Some(reason) => TorrentStep::Fail(DlError::Torrent(reason)),
        None => if stats.finished {
            TorrentStep::Done(
                DownloadSummary {
                    kind: DownloadKind::Torrent,
                    source: source.clone(),
                    output_path: output_dir.clone(),
                    total_bytes: stats.total_bytes,
                    downloaded_bytes: stats.progress_bytes,
                    resumed: true,
                },
            )
        } else {
            TorrentStep::Wait
        },
    }
}

/// How far the download of a torrent has come.
pub open spec fn progress_after(
    source: String,
    output_dir: String,
    stats: TorrentStats,
) -> DownloadProgress {
    DownloadProgress {
        kind: DownloadKind::Torrent,
        phase: if stats.finished {
            DownloadPhase::Complete
        } else {
            DownloadPhase::Downloading
        },
        source,
        output_path: output_dir,
        downloaded_bytes: stats.progress_bytes,
        total_bytes: Some(stats.total_bytes),
        active_workers: 0,
        completed_chunks: None,
        total_chunks: None,
    }
}

/// The progress of a torrent is complete exactly where it is finished, and tells
/// the bytes of its statistics; it has neither workers nor chunks.
pub proof fn torrent_progress_follows_its_statistics(
    source: String,
    output_dir: String,
    stats: TorrentStats,
)
    ensures
        ({
            let progress = progress_after(source, output_dir, stats);
            &&& progress.phase == DownloadPhase::Complete <==> stats.finished
            &&& progress.phase == DownloadPhase::Downloading <==> !stats.finished
            &&& progress.kind == DownloadKind::Torrent
            &&& progress.source == source && progress.output_path == output_dir
            &&& progress.downloaded_bytes == stats.progress_bytes
            &&& progress.total_bytes == Some(stats.total_bytes)
            &&& progress.active_workers == 0
            &&& progress.completed_chunks is None && progress.total_chunks is None
        }),
{
}

/// How far the download of a torrent has come.
pub fn torrent_progress(source: &String, output_dir: &String, stats: &TorrentStats) -> (progress:
    DownloadProgress)
    ensures
        progress == progress_after(*source, *output_dir, *stats),
{
    DownloadProgress {
        kind: DownloadKind::Torrent,
        phase: if stats.finished {
            DownloadPhase::Complete
        } else {
            DownloadPhase::Downloading
        },
        source: source.clone(),
        output_path: output_dir.clone(),
        downloaded_bytes: stats.progress_bytes,
        total_bytes: Some(stats.total_bytes),
        active_workers: 0,
        completed_chunks: None,
        total_chunks: None,
    }
}

/// A source that begins with `magnet:` is a magnet link, one that begins as a
/// web address does is a torrent on the web, and any other is a file.
pub proof fn sources_are_told_by_their_beginning(source: String)
    ensures
        "magnet:"@.is_prefix_of(source@) ==> input_of(source) == TorrentInput::Magnet(source),
        "http://"@.is_prefix_of(source@) || "https://"@.is_prefix_of(source@) ==> input_of(source)
            == TorrentInput::TorrentUrl(source),
        !"magnet:"@.is_prefix_of(source@) && !"http://"@.is_prefix_of(source@)
            && !"https://"@.is_prefix_of(source@) ==> input_of(source)
            == TorrentInput::TorrentFile(source),
{
    reveal_strlit("magnet:");
    reveal_strlit("http://");
    reveal_strlit("https://");
    if "magnet:"@.is_prefix_of(source@) {
        assert(source@[0] == "magnet:"@[0]);
    }
    if "http://"@.is_prefix_of(source@) {
        assert(source@[0] == "http://"@[0]);
    }
    if "https://"@.is_prefix_of(source@) {
        assert(source@[0] == "https://"@[0]);
    }
}

/// A source that begins as a magnet link or as a web address does is handed on
/// as it is, and any other is read as a file.
pub proof fn files_are_read_and_addresses_handed_on(source: String)
    ensures
        "magnet:"@.is_prefix_of(source@) || "http://"@.is_prefix_of(source@)
            || "https://"@.is_prefix_of(source@) ==> input_of(source).handed()
            == TorrentFetch::Address(source),
        !"magnet:"@.is_prefix_of(source@) && !"http://"@.is_prefix_of(source@)
            && !"https://"@.is_prefix_of(source@) ==> input_of(source).handed()
            == TorrentFetch::FileAt(source),
{
    sources_are_told_by_their_beginning(source);
}

} // verus!
