//! What can go wrong with a download.

use vstd::prelude::*;

use crate::text::{contains, contains_text};

verus! {

/// A failed download. The failures of the network, the disk, the serializer
/// and the task runtime are held by their own description.
#[derive(Debug, Clone)]
pub enum DlError {
    Io(String),
    Http(String),
    InvalidHeader(String),
    InvalidResponse(String),
    RateLimited {
        message: String,
        /// The number of seconds that the server asked to wait.
        retry_after: Option<u64>,
    },
    ServerError(String),
    RangesUnsupported,
    InvalidState(String),
    Serialization(String),
    Torrent(String),
    Join(String),
}

pub type Result<T> = std::result::Result<T, DlError>;

/// The text of an error: what kind it is, and the detail.
pub open spec fn error_text(error: DlError) -> Seq<char> {
    match error {
        DlError::Io(detail) => "输入输出错误："@ + detail@,
        DlError::Http(detail) => "HTTP 错误："@ + detail@,
        DlError::InvalidHeader(detail) => "请求头无效："@ + detail@,
        DlError::InvalidResponse(detail) => "无效的 HTTP 响应："@ + detail@,
        DlError::RateLimited { message, .. } => "请求被限速："@ + message@,
        DlError::ServerError(detail) => "服务器错误："@ + detail@,
        DlError::RangesUnsupported => "服务器不支持可恢复的分段下载"@,
        DlError::InvalidState(detail) => "下载状态无效："@ + detail@,
        DlError::Serialization(detail) => "序列化错误："@ + detail@,
        DlError::Torrent(detail) => "种子错误："@ + detail@,
        DlError::Join(detail) => "工作线程任务失败："@ + detail@,
    }
}

fn prefixed(prefix: &str, detail: &String) -> (text: String)
    ensures
        text@ == prefix@ + detail@,
{
    let mut text = prefix.to_owned();
    text.append(detail.as_str());
    text
}

impl DlError {
    /// The text of the error.
    pub fn to_text(&self) -> (text: String)
        ensures
            text@ == error_text(*self),
    {
        match self {
            DlError::Io(detail) => prefixed("输入输出错误：", detail),
            DlError::Http(detail) => prefixed("HTTP 错误：", detail),
            DlError::InvalidHeader(detail) => prefixed("请求头无效：", detail),
            DlError::InvalidResponse(detail) => prefixed("无效的 HTTP 响应：", detail),
            DlError::RateLimited { message, .. } => prefixed("请求被限速：", message),
            DlError::ServerError(detail) => prefixed("服务器错误：", detail),
            DlError::RangesUnsupported => "服务器不支持可恢复的分段下载".to_owned(),
            DlError::InvalidState(detail) => prefixed("下载状态无效：", detail),
            DlError::Serialization(detail) => prefixed("序列化错误：", detail),
            DlError::Torrent(detail) => prefixed("种子错误：", detail),
            DlError::Join(detail) => prefixed("工作线程任务失败：", detail),
        }
    }
}

/// Whether another try may succeed: always after a rate limit, a server error
/// or a failed exchange, and after a bad response unless its description names
/// a client error other than a timeout or a rate limit.
pub open spec fn is_retryable(error: DlError) -> bool {
    match error {
        DlError::RateLimited { .. } => true,
        DlError::ServerError(_) => true,
        DlError::Http(_) => true,
        DlError::InvalidResponse(message) => contains_text(message@, "returned 4"@)
            ==> contains_text(message@, "returned 408"@) || contains_text(
            message@,
            "returned 429"@,
        ),
        _ => false,
    }
}

/// Whether another try may succeed.
pub fn is_error_retryable(error: &DlError) -> (r: bool)
    ensures
        r == is_retryable(*error),
{
    match error {
        DlError::RateLimited { .. } => true,
        DlError::ServerError(_) => true,
        DlError::Http(_) => true,
        DlError::InvalidResponse(message) => {
            if contains(message.as_str(), "returned 4") {
                contains(message.as_str(), "returned 408") || contains(
                    message.as_str(),
                    "returned 429",
                )
            } else {
                true
            }
        },
        _ => false,
    }
}

/// Rate limits, server errors and failed exchanges are worth another try;
/// failures of the disk, of headers, records, torrents and tasks are not; and a
/// bad response is, unless it is told to have returned a client error that is
/// neither a timeout nor a rate limit.
pub proof fn retries_depend_on_the_failure(message: String, retry_after: Option<u64>)
    ensures
        is_retryable(DlError::RateLimited { message, retry_after }),
        is_retryable(DlError::ServerError(message)),
        is_retryable(DlError::Http(message)),
        !is_retryable(DlError::Io(message)),
        !is_retryable(DlError::InvalidHeader(message)),
        !is_retryable(DlError::RangesUnsupported),
        !is_retryable(DlError::InvalidState(message)),
        !is_retryable(DlError::Serialization(message)),
        !is_retryable(DlError::Torrent(message)),
        !is_retryable(DlError::Join(message)),
        !contains_text(message@, "returned 4"@) ==> is_retryable(
            DlError::InvalidResponse(message),
        ),
        contains_text(message@, "returned 408"@) || contains_text(message@, "returned 429"@)
            ==> is_retryable(DlError::InvalidResponse(message)),
        contains_text(message@, "returned 4"@) && !contains_text(message@, "returned 408"@)
            && !contains_text(message@, "returned 429"@) ==> !is_retryable(
            DlError::InvalidResponse(message),
        ),
{
}

/// The text of an error with a detail ends in a colon and that detail.
pub proof fn error_text_ends_in_the_detail(detail: String, retry_after: Option<u64>)
    ensures
        ("："@ + detail@).is_suffix_of(error_text(DlError::Io(detail))),
        ("："@ + detail@).is_suffix_of(error_text(DlError::Http(detail))),
        ("："@ + detail@).is_suffix_of(error_text(DlError::InvalidHeader(detail))),
        ("："@ + detail@).is_suffix_of(error_text(DlError::InvalidResponse(detail))),
        ("："@ + detail@).is_suffix_of(
            error_text(DlError::RateLimited { message: detail, retry_after }),
        ),
        ("："@ + detail@).is_suffix_of(error_text(DlError::ServerError(detail))),
        ("："@ + detail@).is_suffix_of(error_text(DlError::InvalidState(detail))),
        ("："@ + detail@).is_suffix_of(error_text(DlError::Serialization(detail))),
        ("："@ + detail@).is_suffix_of(error_text(DlError::Torrent(detail))),
        ("："@ + detail@).is_suffix_of(error_text(DlError::Join(detail))),
{
    reveal_strlit("：");
    reveal_strlit("输入输出错误：");
    reveal_strlit("HTTP 错误：");
    reveal_strlit("请求头无效：");
    reveal_strlit("无效的 HTTP 响应：");
    reveal_strlit("请求被限速：");
    reveal_strlit("服务器错误：");
    reveal_strlit("下载状态无效：");
    reveal_strlit("序列化错误：");
    reveal_strlit("种子错误：");
    reveal_strlit("工作线程任务失败：");
}

} // verus!
