//! A download over one connection: the request, the response that is accepted,
//! and the count of the bytes.

use vstd::prelude::*;

use crate::error::Result;
use crate::http::headers::{field_text, is_header_value, lemma_number_in_value, value_view};
use crate::http::status::{
    describe_status, description, failure_of, is_success, status_error, status_text, OK,
    PARTIAL_CONTENT,
};
use crate::http::transfer::ReportMeter;
use crate::text::{
    decimal, decimal_reads_back, parsed_number, push_decimal, str_view, string_view,
    ParseNumberError,
};
use crate::types::{DownloadKind, DownloadPhase, DownloadProgress, DownloadSummary};

verus! {

/// The request goes for what lies behind `start_offset` alone.
pub open spec fn asks_for_rest(start_offset: u64, ranges_supported: bool) -> bool {
    start_offset > 0 && ranges_supported
}

/// The value of the `Range` field that asks for all from `start_offset` on;
/// `None` where the whole resource is asked for.
pub open spec fn rest_text(start_offset: u64, ranges_supported: bool) -> Option<Seq<char>> {
    if asks_for_rest(start_offset, ranges_supported) {
        Some("bytes="@ + decimal(start_offset as nat) + "-"@)
    } else {
        None
    }
}

/// A stream that goes on asks a server that serves ranges for all from where it
/// stands, with no end named; one from the start, and one from any other server,
/// asks for no range.
pub proof fn rest_is_asked_for_from_the_offset(start_offset: u64, ranges_supported: bool)
    ensures
        start_offset == 0 || !ranges_supported ==> rest_text(start_offset, ranges_supported)
            is None,
        start_offset > 0 && ranges_supported ==> ({
            let text = rest_text(start_offset, ranges_supported)->0;
            &&& rest_text(start_offset, ranges_supported) is Some
            &&& "bytes="@.is_prefix_of(text)
            &&& text.last() == '-'
            &&& parsed_number(text.subrange(6, text.len() - 1)) == Ok::<u64, ParseNumberError>(
                start_offset,
            )
        }),
{
    reveal_strlit("bytes=");
    reveal_strlit("-");
    let first = decimal(start_offset as nat);
    let text = "bytes="@ + first + "-"@;
    decimal_reads_back(start_offset);
    assert(text.subrange(6, text.len() - 1) =~= first);
    assert(text.take(6) =~= "bytes="@);
}

/// The value of the `Range` field that asks for all from `start_offset` on;
/// `None` where the whole resource is asked for.
pub fn rest_header(start_offset: u64, ranges_supported: bool) -> (text: Option<String>)
    ensures
        string_view(text) == rest_text(start_offset, ranges_supported),
        text matches Some(value) ==> is_header_value(value@),
{
    if start_offset > 0 && ranges_supported {
        let mut text = "bytes=".to_owned();
        push_decimal(&mut text, start_offset);
        text.append("-");
        proof {
            reveal_strlit("bytes=");
            reveal_strlit("-");
            lemma_number_in_value("bytes="@, start_offset as nat);
        }
        Some(text)
    } else {
        None
    }
}

/// A response can be written to the file: it is a partial one where the rest
/// was asked for, any success where nothing is there yet, or the whole
/// resource.
pub open spec fn is_accepted(start_offset: u64, ranges_supported: bool, status: u16) -> bool {
    ||| asks_for_rest(start_offset, ranges_supported) && status == PARTIAL_CONTENT
    ||| start_offset == 0 && is_success(status)
    ||| status == OK
}

/// Accepts the response to the request of a single stream if it can be written
/// to the file; otherwise the error that its status, its `Retry-After`,
/// `Server` and `cf-mitigated` fields and its body tell of.
pub fn accept_single_response(
    start_offset: u64,
    ranges_supported: bool,
    status: u16,
    retry_after: Option<&[u8]>,
    server: Option<&[u8]>,
    mitigation: Option<&[u8]>,
    body: Option<&str>,
) -> (r: Result<()>)
    requires
        100 <= status <= 999,
    ensures
        match r {
            Ok(_) => is_accepted(start_offset, ranges_supported, status),
            Err(error) => !is_accepted(start_offset, ranges_supported, status) && exists|
                text: String,
            |
                text@ == description(
                    status_text(status),
                    field_text(value_view(server)),
                    field_text(value_view(mitigation)),
                    str_view(body),
                    "GET"@,
                ) && error == #[trigger] failure_of(status, value_view(retry_after), text),
        },
{
    if (start_offset > 0 && ranges_supported && status == PARTIAL_CONTENT) || (start_offset == 0
        && 200 <= status && status < 300) || status == OK {
        return Ok(());
    }
    let text = describe_status(status, server, mitigation, body, "GET");
    Err(status_error(status, retry_after, text))
}

/// Where the bytes of an accepted response belong: behind what is there if it
/// is a partial one, and at the start otherwise.
pub open spec fn write_offset(start_offset: u64, status: u16) -> u64 {
    if status == PARTIAL_CONTENT {
        start_offset
    } else {
        0
    }
}

/// The bytes of a single stream as they come in.
#[derive(Debug, Clone)]
pub struct SingleTransfer {
    pub url: String,
    pub output_path: String,
    /// How many bytes were there before.
    pub offset: u64,
    /// How many bytes are there, modulo the range of the counter.
    pub downloaded: u64,
    pub total_size: Option<u64>,
    pub meter: ReportMeter,
}

impl SingleTransfer {
    /// The state in which the body of an accepted response begins to be written.
    pub open spec fn begun(
        url: String,
        output_path: String,
        start_offset: u64,
        status: u16,
        known_size: Option<u64>,
        content_length: Option<u64>,
        now: u128,
    ) -> Self {
        SingleTransfer {
            url,
            output_path,
            offset: write_offset(start_offset, status),
            downloaded: write_offset(start_offset, status),
            total_size: match known_size {
                Some(size) => Some(size),
                None => match content_length {
                    Some(len) => Some((len + write_offset(start_offset, status)) as u64),
                    None => None,
                },
            },
            meter: ReportMeter { pieces: 0, last_report: now },
        }
    }

    /// What the stream came to.
    pub open spec fn result(self) -> DownloadSummary {
        DownloadSummary {
            kind: DownloadKind::Http,
            source: self.url,
            output_path: self.output_path,
            total_bytes: match self.total_size {
                Some(size) => size,
                None => self.downloaded,
            },
            downloaded_bytes: self.downloaded,
            resumed: self.offset > 0,
        }
    }

    /// Begins to write the body of an accepted response. The size of the whole
    /// is the one that is already known, or else the length of the body and
    /// what is there before it.
    pub fn begin(
        url: String,
        output_path: String,
        start_offset: u64,
        status: u16,
        known_size: Option<u64>,
        content_length: Option<u64>,
        now: u128,
    ) -> (transfer: Self)
        requires
            known_size is None ==> (content_length matches Some(len) ==> len + write_offset(
                start_offset,
                status,
            ) <= u64::MAX),
        ensures
            transfer == SingleTransfer::begun(
                url,
                output_path,
                start_offset,
                status,
                known_size,
                content_length,
                now,
            ),
    {
        let offset: u64 = if status == PARTIAL_CONTENT {
            start_offset
        } else {
            0
        };
        let total_size = match known_size {
            Some(size) => Some(size),
            None => match content_length {
                Some(len) => Some(len + offset),
                None => None,
            },
        };
        SingleTransfer {
            url,
            output_path,
            offset,
            downloaded: offset,
            total_size,
            meter: ReportMeter::new(now),
        }
    }

    /// The counter after `len` more bytes.
    pub open spec fn grown(self, len: usize) -> u64 {
        ((self.downloaded + len) % 0x1_0000_0000_0000_0000) as u64
    }

    /// Counts a piece of `len` bytes that was written at `now`, and says
    /// whether to report the progress.
    pub fn wrote(&mut self, len: usize, now: u128) -> (report: bool)
        ensures
            final(self).downloaded == old(self).grown(len),
            report == old(self).meter.reports(now),
            final(self).meter == (ReportMeter {
                pieces: old(self).meter.counted(),
                last_report: if report {
                    now
                } else {
                    old(self).meter.last_report
                },
            }),
            final(self).url == old(self).url,
            final(self).output_path == old(self).output_path,
            final(self).offset == old(self).offset,
            final(self).total_size == old(self).total_size,
    {
        let len: u64 = len as u64;
        self.downloaded = if self.downloaded <= u64::MAX - len {
            self.downloaded + len
        } else {
            self.downloaded - (u64::MAX - len) - 1
        };
        self.meter.count(now)
    }

    /// The progress of the stream: one worker while it runs, none when it is
    /// done.
    pub fn progress(&self, phase: DownloadPhase) -> (progress: DownloadProgress)
        ensures
            progress == (DownloadProgress {
                kind: DownloadKind::Http,
                phase,
                source: self.url,
                output_path: self.output_path,
                downloaded_bytes: self.downloaded,
                total_bytes: self.total_size,
                active_workers: if phase == DownloadPhase::Complete {
                    0
                } else {
                    1
                },
                completed_chunks: None,
                total_chunks: None,
            }),
    {
        DownloadProgress {
            kind: DownloadKind::Http,
            phase,
            source: self.url.clone(),
            output_path: self.output_path.clone(),
            downloaded_bytes: self.downloaded,
            total_bytes: self.total_size,
            active_workers: if phase == DownloadPhase::Complete {
                0
            } else {
                1
            },
            completed_chunks: None,
            total_chunks: None,
        }
    }

    /// What the stream came to.
    pub fn summary(self) -> (summary: DownloadSummary)
        ensures
            summary == self.result(),
    {
        DownloadSummary {
            kind: DownloadKind::Http,
            source: self.url,
            output_path: self.output_path,
            total_bytes: match self.total_size {
                Some(size) => size,
                None => self.downloaded,
            },
            downloaded_bytes: self.downloaded,
            resumed: self.offset > 0,
        }
    }
}

/// An accepted response completes the file: where a server answers a range with
/// that range, of status 206, and anything else that succeeds with the whole
/// resource, what is kept of the file and the body together are the resource.
pub proof fn accepted_response_completes_the_file(
    start_offset: u64,
    ranges_supported: bool,
    status: u16,
    file: Seq<u8>,
    body: Seq<u8>,
    resource: Seq<u8>,
)
    requires
        is_accepted(start_offset, ranges_supported, status),
        start_offset <= resource.len(),
        start_offset <= file.len(),
        file.take(start_offset as int) == resource.take(start_offset as int),
        200 <= status <= 299 ==> body == (if status == 206 && start_offset > 0
            && ranges_supported {
            resource.skip(start_offset as int)
        } else {
            resource
        }),
    ensures
        file.take(write_offset(start_offset, status) as int) + body == resource,
{
    if status == 206 && start_offset > 0 {
        assert(resource =~= resource.take(start_offset as int) + resource.skip(
            start_offset as int,
        ));
    } else {
        assert(file.take(0) + body =~= resource);
    }
}

/// A whole response is always accepted, a partial one where the rest was asked
/// for, any success at the start of the file, and nothing that is no success.
pub proof fn successes_are_accepted(start_offset: u64, ranges_supported: bool, status: u16)
    ensures
        status == 200 ==> is_accepted(start_offset, ranges_supported, status),
        start_offset == 0 && 200 <= status <= 299 ==> is_accepted(
            start_offset,
            ranges_supported,
            status,
        ),
        start_offset > 0 && ranges_supported && status == 206 ==> is_accepted(
            start_offset,
            ranges_supported,
            status,
        ),
        start_offset > 0 && status != 200 && (status != 206 || !ranges_supported) ==> !is_accepted(
            start_offset,
            ranges_supported,
            status,
        ),
        status < 200 || status > 299 ==> !is_accepted(start_offset, ranges_supported, status),
        start_offset > 0 && ranges_supported <==> asks_for_rest(start_offset, ranges_supported),
{
}

/// The bytes that are there are those from before and those that came in; a
/// counter that has no room for them starts over.
pub proof fn bytes_are_counted(transfer: SingleTransfer, len: usize)
    ensures
        transfer.downloaded + len <= u64::MAX ==> transfer.grown(len) == transfer.downloaded + len,
        transfer.downloaded + len > u64::MAX ==> transfer.grown(len) == transfer.downloaded + len
            - 0x1_0000_0000_0000_0000,
{
}

/// A stream begins with the bytes that a partial response, of status 206, goes
/// on behind, and with none of any other; a size that is known stands, and else
/// the whole is what is there and what the response brings.
pub proof fn stream_begins_behind_what_is_there(
    url: String,
    output_path: String,
    start_offset: u64,
    status: u16,
    known_size: Option<u64>,
    content_length: Option<u64>,
    now: u128,
)
    ensures
        ({
            let begun = SingleTransfer::begun(
                url,
                output_path,
                start_offset,
                status,
                known_size,
                content_length,
                now,
            );
            &&& status == 206 ==> begun.offset == start_offset && begun.downloaded == start_offset
            &&& status != 206 ==> begun.offset == 0 && begun.downloaded == 0
            &&& known_size is Some ==> begun.total_size == known_size
            &&& known_size is None && content_length is None ==> begun.total_size is None
            &&& known_size is None && content_length is Some && begun.offset + content_length->0
                <= u64::MAX ==> begun.total_size == Some(
                (begun.offset + content_length->0) as u64,
            )
            &&& begun.url == url && begun.output_path == output_path
            &&& begun.meter.pieces == 0 && begun.meter.last_report == now
        }),
{
}

/// A stream comes to the bytes that are there, of the size that is known or else
/// of as many, and is one that was taken up where bytes were there before.
pub proof fn stream_comes_to_its_bytes(transfer: SingleTransfer)
    ensures
        ({
            let result = transfer.result();
            &&& result.kind == DownloadKind::Http
            &&& result.source == transfer.url && result.output_path == transfer.output_path
            &&& result.downloaded_bytes == transfer.downloaded
            &&& transfer.total_size is Some ==> transfer.total_size == Some(result.total_bytes)
            &&& transfer.total_size is None ==> result.total_bytes == transfer.downloaded
            &&& result.resumed <==> transfer.offset != 0
        }),
{
}

} // verus!
