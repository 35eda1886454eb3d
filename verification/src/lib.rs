//! Planning, bookkeeping and text rules of a resumable HTTP and torrent
//! downloader.

pub mod chunks;
pub mod cli;
pub mod client;
pub mod error;
pub mod http;
pub mod links;
pub mod paths;
pub mod state;
pub mod text;
pub mod torrent;
pub mod types;

pub use client::{DlClient, DownloadSource};
pub use error::{DlError, Result};
pub use torrent::{TorrentInput, TorrentOptions};
pub use types::{
    DisplayLanguage, DownloadKind, DownloadOptions, DownloadPhase, DownloadProgress,
    DownloadSummary, InlineDownloadState, ProgressReceiver, ProgressSender, Segment,
};
