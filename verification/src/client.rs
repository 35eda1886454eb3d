//! The entrance to downloads of every kind.

use vstd::prelude::*;

use crate::torrent::TorrentInput;
use crate::types::{
    normal_options, DisplayLanguage, DownloadOptions, DEFAULT_CHUNK_SIZE,
    DEFAULT_METADATA_FLUSH_INTERVAL, VERSION,
};

verus! {

/// What is downloaded.
#[derive(Debug, Clone)]
pub enum DownloadSource {
    Http(String),
    Torrent(TorrentInput),
}

/// Downloads with the same options.
#[derive(Debug, Clone)]
pub struct DlClient {
    pub options: DownloadOptions,
}

/// A download that a client asks for.
#[derive(Debug)]
pub enum DownloadTask {
    /// A download over HTTP with the options of the client.
    Http { url: String, output: String },
    /// A download of a torrent that reports to where the client does.
    Torrent { input: TorrentInput, output: String, only_files: Option<Vec<usize>> },
}

impl Default for DlClient {
    fn default() -> (client: Self)
        ensures
            client.options.connections is None,
            client.options.chunk_size == DEFAULT_CHUNK_SIZE,
            client.options.resume,
            !client.options.overwrite,
            client.options.user_agent@ == "dl/"@ + VERSION@,
            client.options.metadata_flush_interval == DEFAULT_METADATA_FLUSH_INTERVAL,
            client.options.progress is None,
            client.options.only_files is None,
            client.options.rate_limit is None,
            client.options.headers@.len() == 0,
            client.options.proxy is None,
            client.options.language == DisplayLanguage::En,
    {
        DlClient { options: DownloadOptions::default() }
    }
}

/// What a choice of files reads.
pub open spec fn files_view(files: Option<Vec<usize>>) -> Option<Seq<usize>> {
    match files {
        Some(numbers) => Some(numbers@),
        None => None,
    }
}

impl DlClient {
    /// A client with the given options, brought into range.
    pub fn new(options: DownloadOptions) -> (client: Self)
        ensures
            client.options == normal_options(options),
    {
        DlClient { options: options.normalized() }
    }

    /// The download of `source` to `output`.
    pub fn download(&self, source: DownloadSource, output: String) -> (task: DownloadTask)
        ensures
            match source {
                DownloadSource::Http(url) => task == (DownloadTask::Http { url, output }),
                DownloadSource::Torrent(input) => task matches DownloadTask::Torrent {
                    input: given,
                    output: place,
                    only_files,
                } && given == input && place == output && files_view(only_files) == files_view(
                    self.options.only_files,
                ),
            },
    {
        match source {
            DownloadSource::Http(url) => DownloadTask::Http { url, output },
            DownloadSource::Torrent(input) => {
                let only_files = match &self.options.only_files {
                    Some(numbers) => Some(numbers.clone()),
                    None => None,
                };
                DownloadTask::Torrent { input, output, only_files }
            },
        }
    }
}

} // verus!
