//! The transfer of one segment: the range that is asked for, the response that
//! is accepted, and the bytes that it may hold.

use vstd::prelude::*;

use crate::error::{DlError, Result};
use crate::http::headers::{field_text, is_header_value, lemma_number_in_value, value_view};
use crate::http::status::{
    describe_status, description, failure_of, status_error, status_text, PARTIAL_CONTENT,
};
use crate::text::{
    contains_text, decimal, decimal_reads_back, parsed_number, push_decimal, str_view,
    text_contains_its_parts, ParseNumberError,
};
use crate::types::Segment;

verus! {

/// The value of the `Range` field that asks for a segment.
pub open spec fn range_text(start: int, end: int) -> Seq<char> {
    "bytes="@ + decimal(start as nat) + "-"@ + decimal(end as nat)
}

/// The value of the `Range` field that asks for a segment.
pub fn range_header(segment: &Segment) -> (text: String)
    ensures
        text@ == range_text(segment.start as int, segment.end as int),
        is_header_value(text@),
{
    let mut text = "bytes=".to_owned();
    push_decimal(&mut text, segment.start);
    text.append("-");
    push_decimal(&mut text, segment.end);
    proof {
        reveal_strlit("bytes=");
        reveal_strlit("-");
        lemma_number_in_value("bytes="@, segment.start as nat);
        let start = "bytes="@ + decimal(segment.start as nat) + "-"@;
        assert(is_header_value(start));
        lemma_number_in_value(start, segment.end as nat);
    }
    text
}

/// What a description of a failed request for a segment calls it.
pub open spec fn range_context(index: int) -> Seq<char> {
    "range request for segment "@ + decimal(index as nat)
}

/// Accepts the response to a request for a segment if it is a partial one;
/// otherwise the error that its status, its `Retry-After`, `Server` and
/// `cf-mitigated` fields and its body tell of.
pub fn accept_range_response(
    segment: &Segment,
    status: u16,
    retry_after: Option<&[u8]>,
    server: Option<&[u8]>,
    mitigation: Option<&[u8]>,
    body: Option<&str>,
) -> (r: Result<()>)
    requires
        100 <= status <= 999,
    ensures
        match r {
            Ok(_) => status == PARTIAL_CONTENT,
            Err(error) => status != PARTIAL_CONTENT && exists|text: String|
                text@ == description(
                    status_text(status),
                    field_text(value_view(server)),
                    field_text(value_view(mitigation)),
                    str_view(body),
                    range_context(segment.index as int),
                ) && error == #[trigger] failure_of(status, value_view(retry_after), text),
        },
{
    if status == PARTIAL_CONTENT {
        return Ok(());
    }
    let mut context = "range request for segment ".to_owned();
    push_decimal(&mut context, segment.index as u64);
    let text = describe_status(status, server, mitigation, body, context.as_str());
    Err(status_error(status, retry_after, text))
}

/// How many pieces come in between two looks at the clock.
pub const PIECES_PER_REPORT: u32 = 32;

/// The least time between two reports of progress, in nanoseconds.
pub const REPORT_INTERVAL: u128 = 100_000_000;

/// Keeps the reports of progress apart.
#[derive(Debug, Clone, Copy, PartialEq, Eq, Structural)]
pub struct ReportMeter {
    /// How many pieces have come in, modulo the range of the counter.
    pub pieces: u32,
    /// When progress was last reported, in nanoseconds.
    pub last_report: u128,
}

impl ReportMeter {
    pub fn new(now: u128) -> (meter: Self)
        ensures
            meter == (ReportMeter { pieces: 0, last_report: now }),
    {
        ReportMeter { pieces: 0, last_report: now }
    }

    /// The counter after another piece.
    pub open spec fn counted(self) -> u32 {
        if self.pieces == u32::MAX {
            0
        } else {
            (self.pieces + 1) as u32
        }
    }

    /// A piece that comes in at `now` is one to report after.
    pub open spec fn reports(self, now: u128) -> bool {
        &&& self.counted() % PIECES_PER_REPORT == 0
        &&& now >= self.last_report + REPORT_INTERVAL
    }

    /// Counts a piece that comes in at `now`, and says whether to report the
    /// progress.
    pub fn count(&mut self, now: u128) -> (report: bool)
        ensures
            report == old(self).reports(now),
            *final(self) == (ReportMeter {
                pieces: old(self).counted(),
                last_report: if report {
                    now
                } else {
                    old(self).last_report
                },
            }),
    {
        self.pieces = if self.pieces == u32::MAX {
            0
        } else {
            self.pieces + 1
        };
        if self.pieces % PIECES_PER_REPORT == 0 && now >= self.last_report && now
            - self.last_report >= REPORT_INTERVAL {
            self.last_report = now;
            true
        } else {
            false
        }
    }
}

/// The bytes of a segment as they come in.
#[derive(Debug, Clone, Copy, PartialEq, Eq, Structural)]
pub struct SegmentTransfer {
    pub segment: Segment,
    pub written: u64,
}

/// The number of bytes in a segment.
pub open spec fn segment_bytes(segment: Segment) -> int {
    segment.end - segment.start + 1
}

/// A segment is a range of at least one byte, whose length can be counted.
pub open spec fn is_range(segment: Segment) -> bool {
    segment.start <= segment.end && segment_bytes(segment) <= u64::MAX
}

/// The text that tells of too many bytes.
pub open spec fn excess_text(segment: Segment) -> Seq<char> {
    "分段 "@ + decimal(segment.index as nat) + " 超出预期长度 "@ + decimal(
        segment_bytes(segment) as nat,
    )
}

/// The text that tells of too few bytes.
pub open spec fn shortfall_text(segment: Segment, written: int) -> Seq<char> {
    "分段 "@ + decimal(segment.index as nat) + " 写入 "@ + decimal(written as nat)
        + " 字节，预期为 "@ + decimal(segment_bytes(segment) as nat)
}

impl SegmentTransfer {
    /// No more bytes have come in than the segment holds.
    pub open spec fn is_sound(self) -> bool {
        is_range(self.segment) && self.written <= segment_bytes(self.segment)
    }

    pub fn new(segment: Segment) -> (transfer: Self)
        requires
            is_range(segment),
        ensures
            transfer == (SegmentTransfer { segment, written: 0 }),
            transfer.is_sound(),
    {
        SegmentTransfer { segment, written: 0 }
    }

    /// Takes in a piece of `len` bytes, unless it goes past the end of the
    /// segment.
    pub fn take_in(&mut self, len: usize) -> (r: Result<()>)
        requires
            old(self).is_sound(),
        ensures
            final(self).is_sound(),
            final(self).segment == old(self).segment,
            match r {
                Ok(_) => old(self).written + len <= segment_bytes(old(self).segment)
                    && final(self).written == old(self).written + len,
                Err(error) => old(self).written + len > segment_bytes(old(self).segment)
                    && final(self).written == old(self).written && (
                error matches DlError::InvalidResponse(text) && text@ == excess_text(
                    old(self).segment,
                )),
            },
    {
        let expected: u64 = self.segment.len();
        if len as u64 > expected - self.written {
            let mut text = "分段 ".to_owned();
            push_decimal(&mut text, self.segment.index as u64);
            text.append(" 超出预期长度 ");
            push_decimal(&mut text, expected);
            return Err(DlError::InvalidResponse(text));
        }
        self.written = self.written + len as u64;
        Ok(())
    }

    /// Ends the transfer, which has to have brought every byte of the segment.
    pub fn finish(&self) -> (r: Result<()>)
        requires
            self.is_sound(),
        ensures
            match r {
                Ok(_) => self.written == segment_bytes(self.segment),
                Err(error) => self.written < segment_bytes(self.segment) && (
                error matches DlError::InvalidResponse(text) && text@ == shortfall_text(
                    self.segment,
                    self.written as int,
                )),
            },
    {
        let expected: u64 = self.segment.len();
        if self.written != expected {
            let mut text = "分段 ".to_owned();
            push_decimal(&mut text, self.segment.index as u64);
            text.append(" 写入 ");
            push_decimal(&mut text, self.written);
            text.append(" 字节，预期为 ");
            push_decimal(&mut text, expected);
            return Err(DlError::InvalidResponse(text));
        }
        Ok(())
    }
}

/// The range that asks for a segment names its first and its last byte: the
/// text is `bytes=`, the one, a dash and the other, and both read back.
pub proof fn range_names_both_ends(start: u64, end: u64)
    ensures
        ({
            let first = decimal(start as nat);
            let last = decimal(end as nat);
            let text = range_text(start as int, end as int);
            &&& "bytes="@.is_prefix_of(text)
            &&& text.len() == 6 + first.len() + 1 + last.len()
            &&& text[(6 + first.len()) as int] == '-'
            &&& parsed_number(text.subrange(6, (6 + first.len()) as int)) == Ok::<
                u64,
                ParseNumberError,
            >(start)
            &&& parsed_number(text.skip((7 + first.len()) as int)) == Ok::<u64, ParseNumberError>(
                end,
            )
        }),
{
    reveal_strlit("bytes=");
    reveal_strlit("-");
    let first = decimal(start as nat);
    let last = decimal(end as nat);
    let text = range_text(start as int, end as int);
    decimal_reads_back(start);
    decimal_reads_back(end);
    assert(text.subrange(6, (6 + first.len()) as int) =~= first);
    assert(text.skip((7 + first.len()) as int) =~= last);
}

/// Progress is reported with every 32nd piece, and never sooner than a tenth of
/// a second after the last report.
pub proof fn reports_are_kept_apart(meter: ReportMeter, now: u128)
    ensures
        meter.pieces < u32::MAX ==> meter.counted() == meter.pieces + 1,
        meter.pieces == u32::MAX ==> meter.counted() == 0,
        meter.reports(now) <==> (meter.pieces + 1) % 32 == 0 && now >= meter.last_report
            + 100_000_000,
{
}

/// A segment holds the bytes from its first to its last, both included.
pub proof fn segment_holds_both_its_ends(index: usize, start: u64, len: u64)
    requires
        len > 0,
        start + len - 1 <= u64::MAX,
    ensures
        segment_bytes(Segment { index, start, end: (start + len - 1) as u64 }) == len,
{
}

/// What is told of a segment names its number first, and the number of bytes
/// that it should have had last.
pub proof fn texts_name_the_segment(segment: Segment, written: u64)
    requires
        is_range(segment),
    ensures
        ("分段 "@ + decimal(segment.index as nat) + " "@).is_prefix_of(excess_text(segment)),
        (" "@ + decimal((segment.end - segment.start + 1) as nat)).is_suffix_of(
            excess_text(segment),
        ),
        ("分段 "@ + decimal(segment.index as nat) + " "@).is_prefix_of(
            shortfall_text(segment, written as int),
        ),
        contains_text(
            shortfall_text(segment, written as int),
            " "@ + decimal(written as nat) + " "@,
        ),
        decimal((segment.end - segment.start + 1) as nat).is_suffix_of(
            shortfall_text(segment, written as int),
        ),
        decimal(segment.index as nat).is_suffix_of(range_context(segment.index as int)),
{
    reveal_strlit(" ");
    reveal_strlit("分段 ");
    reveal_strlit(" 超出预期长度 ");
    reveal_strlit(" 写入 ");
    reveal_strlit(" 字节，预期为 ");
    let index = decimal(segment.index as nat);
    let len = decimal((segment.end - segment.start + 1) as nat);
    let count = decimal(written as nat);
    let excess = excess_text(segment);
    let short = shortfall_text(segment, written as int);
    assert(excess.take((4 + index.len()) as int) =~= "分段 "@ + index + " "@);
    assert(excess.subrange(excess.len() - len.len() - 1, excess.len() as int) =~= " "@ + len);
    assert(short.take((4 + index.len()) as int) =~= "分段 "@ + index + " "@);
    assert(short.subrange(short.len() - len.len(), short.len() as int) =~= len);
    let before = short.take((6 + index.len()) as int);
    let part = " "@ + count + " "@;
    let after = short.skip((6 + index.len() + part.len()) as int);
    text_contains_its_parts(before, part, after);
    assert(short =~= before + part + after);
    let context = range_context(segment.index as int);
    assert(context.subrange(context.len() - index.len(), context.len() as int) =~= index);
}

} // verus!
