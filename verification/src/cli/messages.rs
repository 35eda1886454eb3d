//! The texts that the command line shows.

use vstd::prelude::*;

use crate::cli::lang::Lang;
use crate::error::{error_text, DlError};
use crate::text::{contains_text, decimal, push_decimal, text_contains_its_parts};
use crate::types::{DownloadKind, DownloadPhase, DownloadProgress, DownloadSummary};

verus! {

/// The description of the options, in Chinese.
pub const HELP_ZH: &'static str = r#"轻量级 HTTP 与种子下载加速工具

用法：dl.exe [选项] <来源>

参数：
  <来源>                          要下载的 URL、磁力链接或 .torrent 文件

选项：
  -o, --output <输出>             HTTP 下载的输出文件，或种子下载的输出目录
  -j, --connections <数量>        HTTP 分段下载的并发工作线程数量
      --chunk-size <大小>         HTTP 分块大小，支持纯字节数或 K、M、G 后缀 [默认值：2M]
      --limit-rate <大小>         最大下载速度，例如 5M、500K
      --proxy <地址>              HTTP/HTTPS 代理地址
      --header <名称: 值>         附加请求头，可重复指定
      --cookie <内容>             Cookie 内容
      --bearer-token <令牌>       Bearer 令牌
      --basic-auth <用户:密码>    HTTP 基本认证
      --json                      以 JSON 输出结果，适合脚本和 AI 调用
      --lang <语言>               输出语言：auto、zh 或 en [默认值：auto]
      --no-resume                 禁用可恢复下载的内嵌元数据
      --overwrite                 覆盖已有的输出路径
      --torrent                   将 HTTP(S) 地址视为种子地址，而非普通 HTTP 文件
  -h, --help                      显示帮助信息
  -V, --version                   显示版本信息"#;

/// The description of the options, in English.
pub const HELP_EN: &'static str = r#"A lightweight HTTP and torrent download accelerator

Usage: dl.exe [OPTIONS] <SOURCE>

Arguments:
  <SOURCE>                        URL, magnet link, or .torrent file to download

Options:
  -o, --output <OUTPUT>            Output file for HTTP downloads, or output directory for torrents
  -j, --connections <COUNT>        Number of concurrent HTTP range workers
      --chunk-size <SIZE>          HTTP chunk size with optional K, M, or G suffix [default: 2M]
      --limit-rate <SIZE>          Maximum download speed, for example 5M or 500K
      --proxy <URL>                HTTP/HTTPS proxy URL
      --header <NAME: VALUE>       Additional HTTP header; can be specified more than once
      --cookie <VALUE>             Cookie header value
      --bearer-token <TOKEN>       Bearer token for Authorization
      --basic-auth <USER:PASSWORD> HTTP Basic authentication
      --json                       Output the final result as JSON for scripts and AI callers
      --lang <LANG>                Output language: auto, zh, or en [default: auto]
      --no-resume                  Disable resumable inline metadata
      --overwrite                  Replace an existing output path
      --torrent                    Treat an HTTP(S) URL as a torrent URL
  -h, --help                       Print help
  -V, --version                    Print version"#;

/// The description of the options.
pub fn help_text(lang: Lang) -> (text: &'static str)
    ensures
        text@ == (if lang == Lang::Zh {
            HELP_ZH@
        } else {
            HELP_EN@
        }),
{
    match lang {
        Lang::Zh => HELP_ZH,
        Lang::En => HELP_EN,
    }
}

/// What is wrong with a command line.
#[derive(Debug, Clone, Copy, PartialEq, Eq, Structural)]
pub enum UsageError {
    MissingArgument,
    InvalidValue,
    UnknownArgument,
    Other,
}

/// The text that tells what is wrong with a command line.
pub open spec fn usage_text(error: UsageError, lang: Lang) -> Seq<char> {
    match (error, lang) {
        (UsageError::MissingArgument, Lang::Zh) => MISSING_ZH@,
        (UsageError::MissingArgument, Lang::En) => MISSING_EN@,
        (UsageError::InvalidValue, Lang::Zh) => INVALID_ZH@,
        (UsageError::InvalidValue, Lang::En) => INVALID_EN@,
        (UsageError::UnknownArgument, Lang::Zh) => UNKNOWN_ZH@,
        (UsageError::UnknownArgument, Lang::En) => UNKNOWN_EN@,
        (UsageError::Other, Lang::Zh) => OTHER_ZH@,
        (UsageError::Other, Lang::En) => OTHER_EN@,
    }
}

pub const MISSING_ZH: &'static str = "错误：缺少必填参数 <来源>\n\n用法：dl.exe [选项] <来源>\n\n使用 --help 查看帮助信息";

pub const MISSING_EN: &'static str = "error: the following required arguments were not provided:\n  <SOURCE>\n\nUsage: dl.exe [OPTIONS] <SOURCE>\n\nFor more information, try '--help'.";

pub const INVALID_ZH: &'static str = "错误：参数值无效\n\n用法：dl.exe [选项] <来源>\n\n使用 --help 查看帮助信息";

pub const INVALID_EN: &'static str = "error: invalid argument value\n\nUsage: dl.exe [OPTIONS] <SOURCE>\n\nFor more information, try '--help'.";

pub const UNKNOWN_ZH: &'static str = "错误：包含未知选项\n\n使用 --help 查看帮助信息";

pub const UNKNOWN_EN: &'static str = "error: unexpected argument\n\nFor more information, try '--help'.";

pub const OTHER_ZH: &'static str = "错误：命令参数无效\n\n使用 --help 查看帮助信息";

pub const OTHER_EN: &'static str = "error: invalid command line arguments\n\nFor more information, try '--help'.";

/// The text that tells what is wrong with a command line.
pub fn usage_message(error: UsageError, lang: Lang) -> (text: &'static str)
    ensures
        text@ == usage_text(error, lang),
{
    match (error, lang) {
        (UsageError::MissingArgument, Lang::Zh) => MISSING_ZH,
        (UsageError::MissingArgument, Lang::En) => MISSING_EN,
        (UsageError::InvalidValue, Lang::Zh) => INVALID_ZH,
        (UsageError::InvalidValue, Lang::En) => INVALID_EN,
        (UsageError::UnknownArgument, Lang::Zh) => UNKNOWN_ZH,
        (UsageError::UnknownArgument, Lang::En) => UNKNOWN_EN,
        (UsageError::Other, Lang::Zh) => OTHER_ZH,
        (UsageError::Other, Lang::En) => OTHER_EN,
    }
}

/// One of two texts, by the language.
pub open spec fn either(lang: Lang, zh: Seq<char>, en: Seq<char>) -> Seq<char> {
    if lang == Lang::Zh {
        zh
    } else {
        en
    }
}

/// One of two texts, by the language.
pub(crate) fn pick(lang: Lang, zh: &'static str, en: &'static str) -> (text: &'static str)
    ensures
        text@ == either(lang, zh@, en@),
{
    match lang {
        Lang::Zh => zh,
        Lang::En => en,
    }
}

/// The name of the kind of an error.
pub open spec fn error_kind(error: DlError, lang: Lang) -> Seq<char> {
    match error {
        DlError::Io(_) => either(lang, "输入输出错误"@, "I/O error"@),
        DlError::Http(_) => either(lang, "HTTP 错误"@, "HTTP error"@),
        DlError::InvalidHeader(_) => either(lang, "请求头无效"@, "Invalid HTTP header"@),
        DlError::InvalidResponse(_) => either(
            lang,
            "无效的 HTTP 响应"@,
            "Invalid HTTP response"@,
        ),
        DlError::RateLimited { .. } => either(lang, "请求被限速"@, "Rate limited"@),
        DlError::ServerError(_) => either(lang, "服务器错误"@, "Server error"@),
        DlError::RangesUnsupported => either(
            lang,
            "服务器不支持可恢复的分段下载"@,
            "Server does not support resumable range downloads"@,
        ),
        DlError::InvalidState(_) => either(lang, "下载状态无效"@, "Download state is invalid"@),
        DlError::Serialization(_) => either(lang, "序列化错误"@, "Serialization error"@),
        DlError::Torrent(_) => either(lang, "种子错误"@, "Torrent error"@),
        DlError::Join(_) => either(lang, "工作线程任务失败"@, "Worker task failed"@),
    }
}

/// The detail of an error, where it has one.
pub open spec fn error_detail(error: DlError) -> Option<Seq<char>> {
    match error {
        DlError::Io(detail) => Some(detail@),
        DlError::Http(detail) => Some(detail@),
        DlError::InvalidHeader(detail) => Some(detail@),
        DlError::InvalidResponse(detail) => Some(detail@),
        DlError::RateLimited { message, .. } => Some(message@),
        DlError::ServerError(detail) => Some(detail@),
        DlError::RangesUnsupported => None,
        DlError::InvalidState(detail) => Some(detail@),
        DlError::Serialization(detail) => Some(detail@),
        DlError::Torrent(detail) => Some(detail@),
        DlError::Join(detail) => Some(detail@),
    }
}

/// An error as it is shown: its kind, and its detail where it has one.
pub open spec fn shown_error(error: DlError, lang: Lang) -> Seq<char> {
    match error_detail(error) {
        Some(detail) => error_kind(error, lang) + "："@ + detail,
        None => error_kind(error, lang),
    }
}

fn with_detail(kind: &str, detail: &String) -> (text: String)
    ensures
        text@ == kind@ + "："@ + detail@,
{
    let mut text = kind.to_owned();
    text.append("：");
    text.append(detail.as_str());
    text
}

/// An error as it is shown.
pub fn display_error(error: &DlError, lang: Lang) -> (text: String)
    ensures
        text@ == shown_error(*error, lang),
{
    match error {
        DlError::Io(detail) => with_detail(pick(lang, "输入输出错误", "I/O error"), detail),
        DlError::Http(detail) => with_detail(pick(lang, "HTTP 错误", "HTTP error"), detail),
        DlError::InvalidHeader(detail) => with_detail(
            pick(lang, "请求头无效", "Invalid HTTP header"),
            detail,
        ),
        DlError::InvalidResponse(detail) => with_detail(
            pick(lang, "无效的 HTTP 响应", "Invalid HTTP response"),
            detail,
        ),
        DlError::RateLimited { message, .. } => with_detail(
            pick(lang, "请求被限速", "Rate limited"),
            message,
        ),
        DlError::ServerError(detail) => with_detail(
            pick(lang, "服务器错误", "Server error"),
            detail,
        ),
        DlError::RangesUnsupported => pick(
            lang,
            "服务器不支持可恢复的分段下载",
            "Server does not support resumable range downloads",
        ).to_owned(),
        DlError::InvalidState(detail) => with_detail(
            pick(lang, "下载状态无效", "Download state is invalid"),
            detail,
        ),
        DlError::Serialization(detail) => with_detail(
            pick(lang, "序列化错误", "Serialization error"),
            detail,
        ),
        DlError::Torrent(detail) => with_detail(pick(lang, "种子错误", "Torrent error"), detail),
        DlError::Join(detail) => with_detail(
            pick(lang, "工作线程任务失败", "Worker task failed"),
            detail,
        ),
    }
}

/// In Chinese an error is shown by its own text.
pub proof fn chinese_shows_the_own_text(error: DlError)
    ensures
        shown_error(error, Lang::Zh) == error_text(error),
{
    reveal_strlit("：");
    reveal_strlit("输入输出错误");
    reveal_strlit("输入输出错误：");
    reveal_strlit("HTTP 错误");
    reveal_strlit("HTTP 错误：");
    reveal_strlit("请求头无效");
    reveal_strlit("请求头无效：");
    reveal_strlit("无效的 HTTP 响应");
    reveal_strlit("无效的 HTTP 响应：");
    reveal_strlit("请求被限速");
    reveal_strlit("请求被限速：");
    reveal_strlit("服务器错误");
    reveal_strlit("服务器错误：");
    reveal_strlit("下载状态无效");
    reveal_strlit("下载状态无效：");
    reveal_strlit("序列化错误");
    reveal_strlit("序列化错误：");
    reveal_strlit("种子错误");
    reveal_strlit("种子错误：");
    reveal_strlit("工作线程任务失败");
    reveal_strlit("工作线程任务失败：");
    assert(shown_error(error, Lang::Zh) =~= error_text(error));
}

/// The name of the kind of a download.
pub open spec fn kind_name(kind: DownloadKind, lang: Lang) -> Seq<char> {
    match kind {
        DownloadKind::Http => "HTTP"@,
        DownloadKind::Torrent => either(lang, "种子"@, "torrent"@),
    }
}

/// The name of a phase.
pub open spec fn phase_name(phase: DownloadPhase, lang: Lang) -> Seq<char> {
    match phase {
        DownloadPhase::Probing => either(lang, "探测中"@, "probing"@),
        DownloadPhase::Downloading => either(lang, "下载中"@, "downloading"@),
        DownloadPhase::PersistingState => either(lang, "保存状态"@, "saving state"@),
        DownloadPhase::Finalizing => either(lang, "整理文件"@, "finalizing"@),
        DownloadPhase::Complete => either(lang, "已完成"@, "complete"@),
    }
}

/// The line that tells how a download stands.
pub open spec fn status_text(progress: DownloadProgress, lang: Lang) -> Seq<char> {
    let start = kind_name(progress.kind, lang) + either(lang, "："@, ": "@) + phase_name(
        progress.phase,
        lang,
    ) + either(lang, " | 工作线程="@, " | workers="@) + decimal(progress.active_workers as nat);
    let chunks = match (progress.completed_chunks, progress.total_chunks) {
        (Some(completed), Some(total)) => either(lang, " | 分块="@, " | chunks="@) + decimal(
            completed as nat,
        ) + "/"@ + decimal(total as nat),
        _ => Seq::empty(),
    };
    start + chunks + " | "@ + progress.output_path@
}

/// The line that tells how a download stands.
pub fn status_message(progress: &DownloadProgress, lang: Lang) -> (text: String)
    ensures
        text@ == status_text(*progress, lang),
{
    let kind = match progress.kind {
        DownloadKind::Http => "HTTP",
        DownloadKind::Torrent => pick(lang, "种子", "torrent"),
    };
    let phase = match progress.phase {
        DownloadPhase::Probing => pick(lang, "探测中", "probing"),
        DownloadPhase::Downloading => pick(lang, "下载中", "downloading"),
        DownloadPhase::PersistingState => pick(lang, "保存状态", "saving state"),
        DownloadPhase::Finalizing => pick(lang, "整理文件", "finalizing"),
        DownloadPhase::Complete => pick(lang, "已完成", "complete"),
    };
    let mut text = kind.to_owned();
    text.append(pick(lang, "：", ": "));
    text.append(phase);
    text.append(pick(lang, " | 工作线程=", " | workers="));
    push_decimal(&mut text, progress.active_workers as u64);
    if let (Some(completed), Some(total)) = (progress.completed_chunks, progress.total_chunks) {
        text.append(pick(lang, " | 分块=", " | chunks="));
        push_decimal(&mut text, completed as u64);
        text.append("/");
        push_decimal(&mut text, total as u64);
    }
    text.append(" | ");
    text.append(progress.output_path.as_str());
    assert(text@ =~= status_text(*progress, lang));
    text
}

/// The line that tells what a download came to.
pub open spec fn summary_text(summary: DownloadSummary, lang: Lang) -> Seq<char> {
    if lang == Lang::Zh {
        "已下载 "@ + decimal(summary.downloaded_bytes as nat) + " 字节，保存至 "@
            + summary.output_path@
    } else {
        "Downloaded "@ + decimal(summary.downloaded_bytes as nat) + " bytes to "@
            + summary.output_path@
    }
}

/// The line that tells what a download came to.
pub fn summary_message(summary: &DownloadSummary, lang: Lang) -> (text: String)
    ensures
        text@ == summary_text(*summary, lang),
{
    let mut text = pick(lang, "已下载 ", "Downloaded ").to_owned();
    push_decimal(&mut text, summary.downloaded_bytes);
    text.append(pick(lang, " 字节，保存至 ", " bytes to "));
    text.append(summary.output_path.as_str());
    text
}

/// The line that tells that the command failed.
pub open spec fn failure_text(error: DlError, lang: Lang) -> Seq<char> {
    either(lang, "错误"@, "Error"@) + "："@ + shown_error(error, lang)
}

/// A failure is told as an error, in the language that is spoken, with all that
/// is shown of it behind.
pub proof fn failures_are_told_as_errors(error: DlError)
    ensures
        failure_text(error, Lang::En) == "Error"@ + "："@ + shown_error(error, Lang::En),
        failure_text(error, Lang::Zh) == "错误"@ + "："@ + error_text(error),
{
    chinese_shows_the_own_text(error);
}

/// The line that tells that the command failed.
pub fn failure_message(error: &DlError, lang: Lang) -> (text: String)
    ensures
        text@ == failure_text(*error, lang),
{
    with_detail(pick(lang, "错误", "Error"), &display_error(error, lang))
}

/// An error is shown by the name of its kind, and by its detail behind a colon
/// where it has one, in either language.
pub proof fn errors_are_shown_with_their_detail(detail: String, retry_after: Option<u64>)
    ensures
        shown_error(DlError::Io(detail), Lang::En) == "I/O error"@ + "："@ + detail@,
        shown_error(DlError::Http(detail), Lang::En) == "HTTP error"@ + "："@ + detail@,
        shown_error(DlError::InvalidHeader(detail), Lang::En) == "Invalid HTTP header"@ + "："@
            + detail@,
        shown_error(DlError::InvalidResponse(detail), Lang::En) == "Invalid HTTP response"@
            + "："@ + detail@,
        shown_error(DlError::RateLimited { message: detail, retry_after }, Lang::En)
            == "Rate limited"@ + "："@ + detail@,
        shown_error(DlError::ServerError(detail), Lang::En) == "Server error"@ + "："@ + detail@,
        shown_error(DlError::InvalidState(detail), Lang::En) == "Download state is invalid"@
            + "："@ + detail@,
        shown_error(DlError::Serialization(detail), Lang::En) == "Serialization error"@ + "："@
            + detail@,
        shown_error(DlError::Torrent(detail), Lang::En) == "Torrent error"@ + "："@ + detail@,
        shown_error(DlError::Join(detail), Lang::En) == "Worker task failed"@ + "："@ + detail@,
        shown_error(DlError::RangesUnsupported, Lang::En)
            == "Server does not support resumable range downloads"@,
        shown_error(DlError::Io(detail), Lang::Zh) == "输入输出错误"@ + "："@ + detail@,
        shown_error(DlError::Http(detail), Lang::Zh) == "HTTP 错误"@ + "："@ + detail@,
        shown_error(DlError::InvalidHeader(detail), Lang::Zh) == "请求头无效"@ + "："@ + detail@,
        shown_error(DlError::InvalidResponse(detail), Lang::Zh) == "无效的 HTTP 响应"@ + "："@
            + detail@,
        shown_error(DlError::RateLimited { message: detail, retry_after }, Lang::Zh)
            == "请求被限速"@ + "："@ + detail@,
        shown_error(DlError::ServerError(detail), Lang::Zh) == "服务器错误"@ + "："@ + detail@,
        shown_error(DlError::InvalidState(detail), Lang::Zh) == "下载状态无效"@ + "："@ + detail@,
        shown_error(DlError::Serialization(detail), Lang::Zh) == "序列化错误"@ + "："@ + detail@,
        shown_error(DlError::Torrent(detail), Lang::Zh) == "种子错误"@ + "："@ + detail@,
        shown_error(DlError::Join(detail), Lang::Zh) == "工作线程任务失败"@ + "："@ + detail@,
        shown_error(DlError::RangesUnsupported, Lang::Zh)
            == "服务器不支持可恢复的分段下载"@,
{
}

/// The line that tells how a download stands ends in its path, and tells the
/// number of workers and, where both are known, of the finished chunks and of
/// all of them.
pub proof fn status_tells_the_numbers(
    progress: DownloadProgress,
    completed: usize,
    total: usize,
)
    ensures
        (" | "@ + progress.output_path@).is_suffix_of(status_text(progress, Lang::En)),
        (" | "@ + progress.output_path@).is_suffix_of(status_text(progress, Lang::Zh)),
        contains_text(
            status_text(progress, Lang::En),
            " | workers="@ + decimal(progress.active_workers as nat),
        ),
        contains_text(
            status_text(progress, Lang::Zh),
            " | 工作线程="@ + decimal(progress.active_workers as nat),
        ),
        progress.completed_chunks == Some(completed) && progress.total_chunks == Some(total)
            ==> contains_text(
            status_text(progress, Lang::En),
            " | chunks="@ + decimal(completed as nat) + "/"@ + decimal(total as nat),
        ) && contains_text(
            status_text(progress, Lang::Zh),
            " | 分块="@ + decimal(completed as nat) + "/"@ + decimal(total as nat),
        ),
{
    lemma_status_parts(progress, completed, total, Lang::En);
    lemma_status_parts(progress, completed, total, Lang::Zh);
}

proof fn lemma_status_parts(
    progress: DownloadProgress,
    completed: usize,
    total: usize,
    lang: Lang,
)
    ensures
        (" | "@ + progress.output_path@).is_suffix_of(status_text(progress, lang)),
        contains_text(
            status_text(progress, lang),
            either(lang, " | 工作线程="@, " | workers="@) + decimal(
                progress.active_workers as nat,
            ),
        ),
        progress.completed_chunks == Some(completed) && progress.total_chunks == Some(total)
            ==> contains_text(
            status_text(progress, lang),
            either(lang, " | 分块="@, " | chunks="@) + decimal(completed as nat) + "/"@ + decimal(
                total as nat,
            ),
        ),
{
    let told = status_text(progress, lang);
    let head = kind_name(progress.kind, lang) + either(lang, "："@, ": "@) + phase_name(
        progress.phase,
        lang,
    );
    let workers = either(lang, " | 工作线程="@, " | workers="@) + decimal(
        progress.active_workers as nat,
    );
    let chunks = match (progress.completed_chunks, progress.total_chunks) {
        (Some(completed), Some(total)) => either(lang, " | 分块="@, " | chunks="@) + decimal(
            completed as nat,
        ) + "/"@ + decimal(total as nat),
        _ => Seq::empty(),
    };
    let tail = " | "@ + progress.output_path@;
    assert(told =~= head + workers + (chunks + tail));
    text_contains_its_parts(head, workers, chunks + tail);
    assert(told =~= (head + workers) + chunks + tail);
    text_contains_its_parts(head + workers, chunks, tail);
    assert(told.subrange(told.len() - tail.len(), told.len() as int) =~= tail);
}

/// The line that tells what a download came to tells the bytes that came in and
/// ends in the path.
pub proof fn summary_tells_bytes_and_path(summary: DownloadSummary)
    ensures
        contains_text(
            summary_text(summary, Lang::En),
            " "@ + decimal(summary.downloaded_bytes as nat) + " "@,
        ),
        contains_text(
            summary_text(summary, Lang::Zh),
            " "@ + decimal(summary.downloaded_bytes as nat) + " "@,
        ),
        summary.output_path@.is_suffix_of(summary_text(summary, Lang::En)),
        summary.output_path@.is_suffix_of(summary_text(summary, Lang::Zh)),
{
    reveal_strlit(" ");
    reveal_strlit("已下载 ");
    reveal_strlit(" 字节，保存至 ");
    reveal_strlit("Downloaded ");
    reveal_strlit(" bytes to ");
    let part = " "@ + decimal(summary.downloaded_bytes as nat) + " "@;
    let path = summary.output_path@;
    let en = summary_text(summary, Lang::En);
    let en_rest = en.skip((10 + part.len()) as int);
    assert(en =~= en.take(10) + part + en_rest);
    text_contains_its_parts(en.take(10), part, en_rest);
    assert(en.subrange(en.len() - path.len(), en.len() as int) =~= path);
    let zh = summary_text(summary, Lang::Zh);
    let zh_rest = zh.skip((3 + part.len()) as int);
    assert(zh =~= zh.take(3) + part + zh_rest);
    text_contains_its_parts(zh.take(3), part, zh_rest);
    assert(zh.subrange(zh.len() - path.len(), zh.len() as int) =~= path);
}

/// What is wrong with a command line is told in the language that is spoken:
/// an argument that is missing is named, and each other fault has its own words.
pub proof fn usage_is_told_in_the_language(error: UsageError)
    ensures
        "error: "@.is_prefix_of(usage_text(error, Lang::En)),
        "错误："@.is_prefix_of(usage_text(error, Lang::Zh)),
        error is MissingArgument ==> "error: the following required"@.is_prefix_of(
            usage_text(error, Lang::En),
        ),
        error is InvalidValue ==> "error: invalid argument value"@.is_prefix_of(
            usage_text(error, Lang::En),
        ),
        error is UnknownArgument ==> "error: unexpected argument"@.is_prefix_of(
            usage_text(error, Lang::En),
        ),
        error is Other ==> "error: invalid command line"@.is_prefix_of(
            usage_text(error, Lang::En),
        ),
        error is MissingArgument ==> "错误：缺少必填参数 <来源>"@.is_prefix_of(
            usage_text(error, Lang::Zh),
        ),
        error is InvalidValue ==> "错误：参数值无效"@.is_prefix_of(usage_text(error, Lang::Zh)),
        error is UnknownArgument ==> "错误：包含未知选项"@.is_prefix_of(
            usage_text(error, Lang::Zh),
        ),
        error is Other ==> "错误：命令参数无效"@.is_prefix_of(usage_text(error, Lang::Zh)),
{
    reveal_strlit("error: ");
    reveal_strlit("错误：");
    reveal_strlit("error: the following required");
    reveal_strlit("error: invalid argument value");
    reveal_strlit("error: unexpected argument");
    reveal_strlit("error: invalid command line");
    reveal_strlit("错误：缺少必填参数 <来源>");
    reveal_strlit("错误：参数值无效");
    reveal_strlit("错误：包含未知选项");
    reveal_strlit("错误：命令参数无效");
    reveal_strlit("错误：缺少必填参数 <来源>\n\n用法：dl.exe [选项] <来源>\n\n使用 --help 查看帮助信息");
    reveal_strlit("error: the following required arguments were not provided:\n  <SOURCE>\n\nUsage: dl.exe [OPTIONS] <SOURCE>\n\nFor more information, try '--help'.");
    reveal_strlit("错误：参数值无效\n\n用法：dl.exe [选项] <来源>\n\n使用 --help 查看帮助信息");
    reveal_strlit("error: invalid argument value\n\nUsage: dl.exe [OPTIONS] <SOURCE>\n\nFor more information, try '--help'.");
    reveal_strlit("错误：包含未知选项\n\n使用 --help 查看帮助信息");
    reveal_strlit("error: unexpected argument\n\nFor more information, try '--help'.");
    reveal_strlit("错误：命令参数无效\n\n使用 --help 查看帮助信息");
    reveal_strlit("error: invalid command line arguments\n\nFor more information, try '--help'.");
}

/// The line that tells how a download stands begins with its kind and its
/// phase, in the language that is spoken.
pub proof fn status_names_kind_and_phase(progress: DownloadProgress)
    ensures
        progress.kind == DownloadKind::Http && progress.phase == DownloadPhase::Probing ==> (
        "HTTP"@ + ": "@ + "probing"@).is_prefix_of(status_text(progress, Lang::En)) && (
        "HTTP"@ + "："@ + "探测中"@).is_prefix_of(status_text(progress, Lang::Zh)),
        progress.kind == DownloadKind::Http && progress.phase == DownloadPhase::Downloading ==> (
        "HTTP"@ + ": "@ + "downloading"@).is_prefix_of(status_text(progress, Lang::En)) && (
        "HTTP"@ + "："@ + "下载中"@).is_prefix_of(status_text(progress, Lang::Zh)),
        progress.kind == DownloadKind::Http && progress.phase == DownloadPhase::PersistingState
            ==> ("HTTP"@ + ": "@ + "saving state"@).is_prefix_of(status_text(progress, Lang::En))
            && ("HTTP"@ + "："@ + "保存状态"@).is_prefix_of(status_text(progress, Lang::Zh)),
        progress.kind == DownloadKind::Http && progress.phase == DownloadPhase::Finalizing ==> (
        "HTTP"@ + ": "@ + "finalizing"@).is_prefix_of(status_text(progress, Lang::En)) && (
        "HTTP"@ + "："@ + "整理文件"@).is_prefix_of(status_text(progress, Lang::Zh)),
        progress.kind == DownloadKind::Http && progress.phase == DownloadPhase::Complete ==> (
        "HTTP"@ + ": "@ + "complete"@).is_prefix_of(status_text(progress, Lang::En)) && (
        "HTTP"@ + "："@ + "已完成"@).is_prefix_of(status_text(progress, Lang::Zh)),
        progress.kind == DownloadKind::Torrent && progress.phase == DownloadPhase::Downloading
            ==> ("torrent"@ + ": "@ + "downloading"@).is_prefix_of(status_text(progress, Lang::En))
            && ("种子"@ + "："@ + "下载中"@).is_prefix_of(status_text(progress, Lang::Zh)),
        progress.kind == DownloadKind::Torrent && progress.phase == DownloadPhase::Complete ==> (
        "torrent"@ + ": "@ + "complete"@).is_prefix_of(status_text(progress, Lang::En)) && (
        "种子"@ + "："@ + "已完成"@).is_prefix_of(status_text(progress, Lang::Zh)),
{
    lemma_status_head(progress, Lang::En);
    lemma_status_head(progress, Lang::Zh);
}

proof fn lemma_status_head(progress: DownloadProgress, lang: Lang)
    ensures
        (kind_name(progress.kind, lang) + either(lang, "："@, ": "@) + phase_name(
            progress.phase,
            lang,
        )).is_prefix_of(status_text(progress, lang)),
{
    let head = kind_name(progress.kind, lang) + either(lang, "："@, ": "@) + phase_name(
        progress.phase,
        lang,
    );
    let told = status_text(progress, lang);
    assert(told.take(head.len() as int) =~= head);
}

} // verus!
