//! What a server tells about a resource before it is fetched.

use vstd::prelude::*;

use crate::http::headers::{
    accepts_ranges, as_value, content_range_total, field_number, field_text, header_string,
    header_u64, is_header_value, offers_ranges, parse_content_range_total, stored_view,
};
use crate::http::status::{is_success, PARTIAL_CONTENT};
use crate::text::string_view;

verus! {

/// What is known of a resource.
#[derive(Debug, Clone)]
pub struct HttpProbe {
    pub total_size: Option<u64>,
    pub ranges_supported: bool,
    pub etag: Option<String>,
    pub last_modified: Option<String>,
}

/// What a probe reads.
pub struct ProbeView {
    pub total_size: Option<u64>,
    pub ranges_supported: bool,
    pub etag: Option<Seq<char>>,
    pub last_modified: Option<Seq<char>>,
}

impl View for HttpProbe {
    type V = ProbeView;

    open spec fn view(&self) -> ProbeView {
        ProbeView {
            total_size: self.total_size,
            ranges_supported: self.ranges_supported,
            etag: string_view(self.etag),
            last_modified: string_view(self.last_modified),
        }
    }
}

/// The status and the header fields of a response that a probe looks at.
#[derive(Debug, Clone)]
pub struct ResponseInfo {
    pub status: u16,
    pub content_range: Option<Vec<u8>>,
    pub content_length: Option<Vec<u8>>,
    pub accept_ranges: Option<Vec<u8>>,
    pub etag: Option<Vec<u8>>,
    pub last_modified: Option<Vec<u8>>,
}

/// The value of the `Range` field that asks for the first byte.
pub fn first_byte_header() -> (text: &'static str)
    ensures
        text@ == "bytes=0-0"@,
        is_header_value(text@),
{
    proof {
        reveal_strlit("bytes=0-0");
    }
    "bytes=0-0"
}

/// What is known when no response told anything.
pub open spec fn nothing_known() -> ProbeView {
    ProbeView { total_size: None, ranges_supported: false, etag: None, last_modified: None }
}

impl ResponseInfo {
    /// What the answer to a request for the first byte tells, where it is an
    /// answer at all: a partial response shows that ranges are served and names
    /// the whole size in its `Content-Range`; any other success ignored the
    /// range, and its `Content-Length` is the whole size.
    pub open spec fn told_by_range(self) -> Option<ProbeView> {
        if self.status == PARTIAL_CONTENT {
            Some(
                ProbeView {
                    total_size: content_range_total(stored_view(self.content_range)),
                    ranges_supported: true,
                    etag: field_text(stored_view(self.etag)),
                    last_modified: field_text(stored_view(self.last_modified)),
                },
            )
        } else if is_success(self.status) {
            Some(
                ProbeView {
                    total_size: field_number(stored_view(self.content_length)),
                    ranges_supported: false,
                    etag: field_text(stored_view(self.etag)),
                    last_modified: field_text(stored_view(self.last_modified)),
                },
            )
        } else {
            None
        }
    }

    /// What the answer to a request without a range tells, where it is a
    /// success.
    pub open spec fn told_by_fields(self) -> Option<ProbeView> {
        if is_success(self.status) {
            Some(
                ProbeView {
                    total_size: field_number(stored_view(self.content_length)),
                    ranges_supported: offers_ranges(stored_view(self.accept_ranges)),
                    etag: field_text(stored_view(self.etag)),
                    last_modified: field_text(stored_view(self.last_modified)),
                },
            )
        } else {
            None
        }
    }
}

/// The view of an optional probe.
pub open spec fn probe_view(probe: Option<HttpProbe>) -> Option<ProbeView> {
    match probe {
        Some(p) => Some(p@),
        None => None,
    }
}

/// What the answer to a request for the first byte tells.
pub fn probe_by_range(response: &ResponseInfo) -> (r: Option<HttpProbe>)
    ensures
        probe_view(r) == response.told_by_range(),
{
    if response.status == PARTIAL_CONTENT {
        Some(
            HttpProbe {
                total_size: parse_content_range_total(as_value(&response.content_range)),
                ranges_supported: true,
                etag: header_string(as_value(&response.etag)),
                last_modified: header_string(as_value(&response.last_modified)),
            },
        )
    } else if 200 <= response.status && response.status < 300 {
        Some(
            HttpProbe {
                total_size: header_u64(as_value(&response.content_length)),
                ranges_supported: false,
                etag: header_string(as_value(&response.etag)),
                last_modified: header_string(as_value(&response.last_modified)),
            },
        )
    } else {
        None
    }
}

/// What the answer to a request without a range tells.
pub fn probe_by_fields(response: &ResponseInfo) -> (r: Option<HttpProbe>)
    ensures
        probe_view(r) == response.told_by_fields(),
{
    if 200 <= response.status && response.status < 300 {
        Some(
            HttpProbe {
                total_size: header_u64(as_value(&response.content_length)),
                ranges_supported: accepts_ranges(as_value(&response.accept_ranges)),
                etag: header_string(as_value(&response.etag)),
                last_modified: header_string(as_value(&response.last_modified)),
            },
        )
    } else {
        None
    }
}

/// A step of the probe came back.
pub enum ProbeEvent {
    /// The answer to a request for the first byte.
    Range(ResponseInfo),
    /// The answer to a request for the header fields alone; `None` where the
    /// exchange failed.
    Head(Option<ResponseInfo>),
    /// The answer to a plain request.
    Get(ResponseInfo),
}

/// What the probe does next.
pub enum ProbeAction {
    /// Ask for the header fields alone.
    SendHead,
    /// Ask for the resource.
    SendGet,
    Done(HttpProbe),
}

/// What the probe knows after an event; `None` where it has to ask on.
pub open spec fn known_after(event: ProbeEvent) -> Option<ProbeView> {
    match event {
        ProbeEvent::Range(response) => response.told_by_range(),
        ProbeEvent::Head(Some(response)) => response.told_by_fields(),
        ProbeEvent::Head(None) => None,
        ProbeEvent::Get(response) => match response.told_by_fields() {
            Some(known) => Some(known),
            None => Some(nothing_known()),
        },
    }
}

/// The action is what the probe does after an event.
pub open spec fn follows(event: ProbeEvent, action: ProbeAction) -> bool {
    match known_after(event) {
        Some(known) => action matches ProbeAction::Done(probe) && probe@ == known,
        None => match event {
            ProbeEvent::Range(_) => action is SendHead,
            _ => action is SendGet,
        },
    }
}

/// The probe asks for the first byte, for the header fields, and for the
/// resource, in this order, and no further than to the first success; after the
/// last request it is done whatever came back.
pub proof fn probe_asks_until_it_is_told(
    response: ResponseInfo,
    first: ProbeAction,
    second: ProbeAction,
    failed: ProbeAction,
    third: ProbeAction,
)
    requires
        follows(ProbeEvent::Range(response), first),
        follows(ProbeEvent::Head(Some(response)), second),
        follows(ProbeEvent::Head(None), failed),
        follows(ProbeEvent::Get(response), third),
    ensures
        first is Done <==> 200 <= response.status <= 299,
        first is SendHead <==> !(200 <= response.status <= 299),
        second is Done <==> 200 <= response.status <= 299,
        second is SendGet <==> !(200 <= response.status <= 299),
        failed is SendGet,
        third is Done,
        first matches ProbeAction::Done(probe) ==> (probe.ranges_supported <==> response.status
            == 206),
        third matches ProbeAction::Done(probe) ==> (!(200 <= response.status <= 299)
            ==> probe.total_size is None && !probe.ranges_supported && probe.etag is None
            && probe.last_modified is None),
{
}

/// Takes the probe a step further: a request for the first byte comes first,
/// then one for the header fields, then a plain one, until an answer tells.
pub fn probe_step(event: ProbeEvent) -> (action: ProbeAction)
    ensures
        follows(event, action),
{
    match event {
        ProbeEvent::Range(response) => match probe_by_range(&response) {
            Some(probe) => ProbeAction::Done(probe),
            None => ProbeAction::SendHead,
        },
        ProbeEvent::Head(Some(response)) => match probe_by_fields(&response) {
            Some(probe) => ProbeAction::Done(probe),
            None => ProbeAction::SendGet,
        },
        ProbeEvent::Head(None) => ProbeAction::SendGet,
        ProbeEvent::Get(response) => match probe_by_fields(&response) {
            Some(probe) => ProbeAction::Done(probe),
            None => ProbeAction::Done(
                HttpProbe {
                    total_size: None,
                    ranges_supported: false,
                    etag: None,
                    last_modified: None,
                },
            ),
        },
    }
}

/// A partial answer, of status 206, to the request for the first byte shows that
/// ranges are served, and its `Content-Range` names the size; any other success
/// shows that they are not, and its `Content-Length` names the size; and after a
/// failure the probe asks on.
pub proof fn first_byte_shows_ranges(response: ResponseInfo)
    ensures
        ({
            let known = known_after(ProbeEvent::Range(response));
            &&& response.status == 206 ==> known is Some && known->0.ranges_supported
                && known->0.total_size == content_range_total(stored_view(response.content_range))
            &&& 200 <= response.status <= 299 && response.status != 206 ==> known is Some
                && !known->0.ranges_supported && known->0.total_size == field_number(
                stored_view(response.content_length),
            )
            &&& (response.status < 200 || response.status > 299) ==> known is None
            &&& known is Some ==> known->0.etag == field_text(stored_view(response.etag))
                && known->0.last_modified == field_text(stored_view(response.last_modified))
        }),
{
}

/// Any success of the two requests that follow tells the size by its
/// `Content-Length` and the ranges by its `Accept-Ranges`; a failure of the
/// first has the probe ask on, and after a failure of the last nothing is known.
pub proof fn fields_are_taken_at_their_word(response: ResponseInfo)
    ensures
        ({
            let head = known_after(ProbeEvent::Head(Some(response)));
            let get = known_after(ProbeEvent::Get(response));
            let success = 200 <= response.status <= 299;
            &&& success ==> head is Some && head == get && head->0.total_size == field_number(
                stored_view(response.content_length),
            ) && head->0.ranges_supported == offers_ranges(stored_view(response.accept_ranges))
                && head->0.etag == field_text(stored_view(response.etag))
                && head->0.last_modified == field_text(stored_view(response.last_modified))
            &&& !success ==> head is None && get is Some && get->0.total_size is None
                && !get->0.ranges_supported && get->0.etag is None && get->0.last_modified is None
        }),
        known_after(ProbeEvent::Head(None)) is None,
{
}

} // verus!
