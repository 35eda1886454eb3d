//! What the status of a response means, and how a failed one is told of.

use vstd::prelude::*;

use crate::error::DlError;
use crate::http::headers::{field_number, field_text, header_string, header_u64, value_view};
use crate::text::{
    chars_of, contains_text, find_from, first_at, occurs_at, str_view, string_view,
    text_contains_its_parts, trim_range, trimmed,
};

verus! {

pub const OK: u16 = 200;

pub const PARTIAL_CONTENT: u16 = 206;

pub const REQUEST_TIMEOUT: u16 = 408;

pub const TOO_MANY_REQUESTS: u16 = 429;

/// A status of success.
pub open spec fn is_success(status: u16) -> bool {
    200 <= status < 300
}

/// A status that blames the server.
pub open spec fn is_server_error(status: u16) -> bool {
    500 <= status < 600
}

/// What `reqwest::StatusCode` shows for a status: the code and its reason.
pub uninterp spec fn status_text(status: u16) -> Seq<char>;

/// `reqwest::StatusCode::from_u16`, shown by its `Display`: the code, a space
/// and the reason that the code is registered with. The table of reasons stays
/// unstated; the text depends on the code alone.
#[verifier::external_body]
fn show_status(status: u16) -> (text: String)
    requires
        100 <= status <= 999,
    ensures
        text@ == status_text(status),
{
    reqwest::StatusCode::from_u16(status).unwrap().to_string()
}

/// The opening tag of a name.
pub open spec fn opening(tag: Seq<char>) -> Seq<char> {
    "<"@ + tag + ">"@
}

/// The closing tag of a name.
pub open spec fn closing(tag: Seq<char>) -> Seq<char> {
    "</"@ + tag + ">"@
}

/// What stands between the first opening tag and the first closing tag behind
/// it, without the white space at its ends.
pub open spec fn tag_content(body: Seq<char>, tag: Seq<char>) -> Option<Seq<char>> {
    if exists|i: int| first_at(body, opening(tag), 0, i) {
        let open = choose|i: int| first_at(body, opening(tag), 0, i);
        let start = open + opening(tag).len();
        if exists|j: int| first_at(body, closing(tag), start, j) {
            let end = choose|j: int| first_at(body, closing(tag), start, j);
            Some(trimmed(body.subrange(start, end)))
        } else {
            None
        }
    } else {
        None
    }
}

/// What stands between the tags of the given name.
pub fn xml_tag(body: &str, tag: &str) -> (r: Option<String>)
    ensures
        string_view(r) == tag_content(body@, tag@),
{
    let mut open = "<".to_owned();
    open.append(tag);
    open.append(">");
    let mut close = "</".to_owned();
    close.append(tag);
    close.append(">");
    let chars = chars_of(body);
    let open_chars = chars_of(open.as_str());
    let close_chars = chars_of(close.as_str());
    let at = match find_from(chars.as_slice(), open_chars.as_slice(), 0) {
        Some(at) => at,
        None => return None,
    };
    assert(first_at(body@, opening(tag@), 0, at as int));
    let total: usize = chars.len();
    assert(at + open_chars@.len() <= total);
    let start: usize = at + open_chars.len();
    let end = match find_from(chars.as_slice(), close_chars.as_slice(), start) {
        Some(end) => end,
        None => return None,
    };
    assert(first_at(body@, closing(tag@), start as int, end as int));
    Some(trim_range(chars.as_slice(), start, end))
}

/// The error that the body of a response describes: the code, and what else it
/// tells about the failure.
pub open spec fn body_error(body: Seq<char>) -> Option<Seq<char>> {
    match tag_content(body, "Code"@) {
        None => None,
        Some(code) => {
            let head = match tag_content(body, "Message"@) {
                Some(message) => code + ": "@ + message,
                None => code,
            };
            let request = match tag_content(body, "CanonicalRequest"@) {
                Some(canonical) => head + "\nCanonicalRequest calculated by S3:\n"@ + canonical,
                None => head,
            };
            Some(
                match tag_content(body, "StringToSign"@) {
                    Some(signed) => request + "\nStringToSign calculated by S3:\n"@ + signed,
                    None => request,
                },
            )
        },
    }
}

/// The error that the body of a response describes.
pub fn extract_response_error(body: &str) -> (r: Option<String>)
    ensures
        string_view(r) == body_error(body@),
{
    let mut text = match xml_tag(body, "Code") {
        Some(code) => code,
        None => return None,
    };
    if let Some(message) = xml_tag(body, "Message") {
        text.append(": ");
        text.append(message.as_str());
    }
    if let Some(canonical) = xml_tag(body, "CanonicalRequest") {
        text.append("\nCanonicalRequest calculated by S3:\n");
        text.append(canonical.as_str());
    }
    if let Some(signed) = xml_tag(body, "StringToSign") {
        text.append("\nStringToSign calculated by S3:\n");
        text.append(signed.as_str());
    }
    Some(text)
}

/// The description of a failed response whose status shows as `shown`.
pub open spec fn description(
    shown: Seq<char>,
    server: Option<Seq<char>>,
    mitigation: Option<Seq<char>>,
    body: Option<Seq<char>>,
    context: Seq<char>,
) -> Seq<char> {
    let head = context + " 返回了 "@ + shown;
    let named = match server {
        Some(server) => head + "（服务器："@ + server + "）"@,
        None => head,
    };
    let shielded = match mitigation {
        Some(mitigation) => named + "；Cloudflare 防护："@ + mitigation,
        None => named,
    };
    let reported = match body {
        Some(body) => body_error(body),
        None => None,
    };
    match reported {
        Some(error) => shielded + "；响应错误："@ + error,
        None => shielded,
    }
}

/// Describes a failed response whose status shows as `shown`.
pub fn describe_shown_status(
    shown: &str,
    server: Option<&[u8]>,
    mitigation: Option<&[u8]>,
    body: Option<&str>,
    context: &str,
) -> (message: String)
    ensures
        message@ == description(
            shown@,
            field_text(value_view(server)),
            field_text(value_view(mitigation)),
            str_view(body),
            context@,
        ),
{
    let mut message = context.to_owned();
    message.append(" 返回了 ");
    message.append(shown);
    if let Some(server) = header_string(server) {
        message.append("（服务器：");
        message.append(server.as_str());
        message.append("）");
    }
    if let Some(mitigation) = header_string(mitigation) {
        message.append("；Cloudflare 防护：");
        message.append(mitigation.as_str());
    }
    if let Some(body) = body {
        if let Some(error) = extract_response_error(body) {
            message.append("；响应错误：");
            message.append(error.as_str());
        }
    }
    message
}

/// Describes a failed response: its status, its `Server` and `cf-mitigated`
/// fields, and the error in its body.
pub fn describe_status(
    status: u16,
    server: Option<&[u8]>,
    mitigation: Option<&[u8]>,
    body: Option<&str>,
    context: &str,
) -> (message: String)
    requires
        100 <= status <= 999,
    ensures
        message@ == description(
            status_text(status),
            field_text(value_view(server)),
            field_text(value_view(mitigation)),
            str_view(body),
            context@,
        ),
{
    let shown = show_status(status);
    describe_shown_status(shown.as_str(), server, mitigation, body, context)
}

/// The error of a response with a status of failure: a rate limit with the
/// time that the server asks to wait, a server error, or a bad response.
pub open spec fn failure_of(
    status: u16,
    retry_after: Option<Seq<u8>>,
    description: String,
) -> DlError {
    if status == TOO_MANY_REQUESTS {
        DlError::RateLimited { message: description, retry_after: field_number(retry_after) }
    } else if is_server_error(status) || status == REQUEST_TIMEOUT {
        DlError::ServerError(description)
    } else {
        DlError::InvalidResponse(description)
    }
}

/// The error of a response with a status of failure, of which `description`
/// tells and to which the server may have sent a `Retry-After` field.
pub fn status_error(status: u16, retry_after: Option<&[u8]>, description: String) -> (error: DlError)
    ensures
        error == failure_of(status, value_view(retry_after), description),
{
    if status == TOO_MANY_REQUESTS {
        DlError::RateLimited { message: description, retry_after: header_u64(retry_after) }
    } else if (500 <= status && status < 600) || status == REQUEST_TIMEOUT {
        DlError::ServerError(description)
    } else {
        DlError::InvalidResponse(description)
    }
}

/// A response of status 429 is a rate limit, with the time that its
/// `Retry-After` names; 408 and those from 500 to 599 blame the server; and any
/// other failure is a bad response.
pub proof fn failures_are_told_by_their_status(
    status: u16,
    retry_after: Option<Seq<u8>>,
    description: String,
)
    ensures
        status == 429 ==> failure_of(status, retry_after, description) == (DlError::RateLimited {
            message: description,
            retry_after: field_number(retry_after),
        }),
        status == 408 || 500 <= status <= 599 ==> failure_of(status, retry_after, description)
            == DlError::ServerError(description),
        status != 429 && status != 408 && (status < 500 || status > 599) ==> failure_of(
            status,
            retry_after,
            description,
        ) == DlError::InvalidResponse(description),
{
}

proof fn lemma_first_is_unique(s: Seq<char>, part: Seq<char>, from: int, i: int, j: int)
    requires
        first_at(s, part, from, i),
        first_at(s, part, from, j),
    ensures
        i == j,
{
    if i < j {
        assert(!occurs_at(s, part, i));
    } else if j < i {
        assert(!occurs_at(s, part, j));
    }
}

/// Between a tag and its end stands the content of the tag: in a body that holds
/// no other tag before the end, it is found whatever stands around it, and in a
/// body that holds no tag at all nothing is found.
pub proof fn tag_holds_what_stands_in_it(
    before: Seq<char>,
    tag: Seq<char>,
    content: Seq<char>,
    after: Seq<char>,
)
    requires
        !before.contains('<'),
        !content.contains('<'),
    ensures
        tag_content(
            before + ("<"@ + tag + ">"@) + content + ("</"@ + tag + ">"@) + after,
            tag,
        ) == Some(trimmed(content)),
        tag_content(before, tag) is None,
        tag_content(before + ("<"@ + tag + ">"@) + content, tag) is None,
{
    reveal_strlit("<");
    reveal_strlit(">");
    reveal_strlit("</");
    let open = opening(tag);
    let close = closing(tag);
    let body = before + open + content + close + after;
    let start = (before.len() + open.len()) as int;
    let end = start + content.len();
    assert(body.subrange(before.len() as int, start) =~= open);
    lemma_nothing_opens(body, before, open, 0);
    assert(first_at(body, open, 0, before.len() as int));
    assert(body.subrange(end, end + close.len()) =~= close);
    assert forall|j: int| start <= j < end implies !occurs_at(body, close, j) by {
        if occurs_at(body, close, j) {
            assert(body.subrange(j, j + close.len())[0] == close[0]);
            assert(content[j - start] == '<');
            assert(content.contains(content[j - start]));
        }
    }
    assert(first_at(body, close, start, end));
    let found = choose|i: int| first_at(body, open, 0, i);
    lemma_first_is_unique(body, open, 0, found, before.len() as int);
    let stop = choose|j: int| first_at(body, close, start, j);
    lemma_first_is_unique(body, close, start, stop, end);
    assert(body.subrange(start, end) =~= content);
    assert forall|i: int| !first_at(before, open, 0, i) by {
        if first_at(before, open, 0, i) {
            assert(before.subrange(i, i + open.len())[0] == open[0]);
            assert(before.contains(before[i]));
        }
    }
    let cut = before + open + content;
    assert(cut.subrange(before.len() as int, start) =~= open);
    lemma_nothing_opens(cut, before, open, 0);
    assert(first_at(cut, open, 0, before.len() as int));
    let opened = choose|i: int| first_at(cut, open, 0, i);
    lemma_first_is_unique(cut, open, 0, opened, before.len() as int);
    assert forall|j: int| !first_at(cut, close, start, j) by {
        if first_at(cut, close, start, j) {
            assert(cut.subrange(j, j + close.len())[0] == close[0]);
            assert(content[j - start] == '<');
            assert(content.contains(content[j - start]));
        }
    }
}

proof fn lemma_nothing_opens(body: Seq<char>, before: Seq<char>, open: Seq<char>, from: int)
    requires
        !before.contains('<'),
        before.is_prefix_of(body),
        open.len() > 0,
        open[0] == '<',
        from >= 0,
    ensures
        forall|j: int| from <= j < before.len() ==> !occurs_at(body, open, j),
{
    assert forall|j: int| from <= j < before.len() implies !occurs_at(body, open, j) by {
        if occurs_at(body, open, j) {
            assert(body.subrange(j, j + open.len())[0] == open[0]);
            assert(body[j] == before[j]);
            assert(before.contains(before[j]));
        }
    }
}

/// The error in a body is told by its code first, with the message behind it;
/// what the server signed stands at the end; and without a code there is none.
pub proof fn body_error_is_told_in_order(body: Seq<char>)
    ensures
        body_error(body) is Some <==> tag_content(body, "Code"@) is Some,
        tag_content(body, "Code"@) is Some && tag_content(body, "Message"@) is None
            && tag_content(body, "CanonicalRequest"@) is None && tag_content(
            body,
            "StringToSign"@,
        ) is None ==> body_error(body) == tag_content(body, "Code"@),
        tag_content(body, "Code"@) is Some && tag_content(body, "Message"@) is Some
            ==> (tag_content(body, "Code"@)->0 + ": "@ + tag_content(
            body,
            "Message"@,
        )->0).is_prefix_of(body_error(body)->0),
        tag_content(body, "Code"@) is Some && tag_content(body, "StringToSign"@) is Some ==> (
        "\nStringToSign calculated by S3:\n"@ + tag_content(
            body,
            "StringToSign"@,
        )->0).is_suffix_of(body_error(body)->0),
        tag_content(body, "Code"@) is Some && tag_content(body, "CanonicalRequest"@) is Some
            ==> contains_text(
            body_error(body)->0,
            "\nCanonicalRequest calculated by S3:\n"@ + tag_content(
                body,
                "CanonicalRequest"@,
            )->0,
        ),
{
    if tag_content(body, "Code"@) is Some {
        lemma_report_parts(
            tag_content(body, "Code"@)->0,
            tag_content(body, "Message"@),
            tag_content(body, "CanonicalRequest"@),
            tag_content(body, "StringToSign"@),
            body_error(body)->0,
        );
    }
}

proof fn lemma_parts_of_text(a: Seq<char>, b: Seq<char>, c: Seq<char>)
    ensures
        a.is_prefix_of(a + b + c),
        (a + b).is_prefix_of(a + b + c),
        contains_text(a + b + c, b),
        c.is_suffix_of(a + b + c),
{
    let whole = a + b + c;
    text_contains_its_parts(a, b, c);
    assert(whole.take(a.len() as int) =~= a);
    assert(whole.take((a + b).len() as int) =~= a + b);
    assert(whole.subrange(whole.len() - c.len(), whole.len() as int) =~= c);
}

proof fn lemma_report_parts(
    code: Seq<char>,
    message: Option<Seq<char>>,
    canonical: Option<Seq<char>>,
    signed: Option<Seq<char>>,
    told: Seq<char>,
)
    requires
        ({
            let head = match message {
                Some(message) => code + ": "@ + message,
                None => code,
            };
            let request = match canonical {
                Some(canonical) => head + "\nCanonicalRequest calculated by S3:\n"@ + canonical,
                None => head,
            };
            told == match signed {
                Some(signed) => request + "\nStringToSign calculated by S3:\n"@ + signed,
                None => request,
            }
        }),
    ensures
        message is Some ==> (code + ": "@ + message->0).is_prefix_of(told),
        canonical is Some ==> contains_text(
            told,
            "\nCanonicalRequest calculated by S3:\n"@ + canonical->0,
        ),
        signed is Some ==> ("\nStringToSign calculated by S3:\n"@ + signed->0).is_suffix_of(told),
{
    let head = match message {
        Some(message) => code + ": "@ + message,
        None => code,
    };
    let middle = match canonical {
        Some(canonical) => "\nCanonicalRequest calculated by S3:\n"@ + canonical,
        None => Seq::empty(),
    };
    let tail = match signed {
        Some(signed) => "\nStringToSign calculated by S3:\n"@ + signed,
        None => Seq::empty(),
    };
    assert(told =~= head + middle + tail);
    lemma_parts_of_text(head, middle, tail);
}

/// A description starts with what was asked for and the status, names the
/// server and its shield where they are known, and ends with the error in the
/// body where there is one.
pub proof fn description_tells_what_is_known(
    shown: Seq<char>,
    server: Option<Seq<char>>,
    mitigation: Option<Seq<char>>,
    body: Option<Seq<char>>,
    context: Seq<char>,
)
    ensures
        (context + " 返回了 "@ + shown).is_prefix_of(
            description(shown, server, mitigation, body, context),
        ),
        server is None && mitigation is None && body is None ==> description(
            shown,
            server,
            mitigation,
            body,
            context,
        ) == context + " 返回了 "@ + shown,
        server is Some ==> (context + " 返回了 "@ + shown + "（服务器："@ + server->0
            + "）"@).is_prefix_of(description(shown, server, mitigation, body, context)),
        mitigation is Some ==> contains_text(
            description(shown, server, mitigation, body, context),
            "；Cloudflare 防护："@ + mitigation->0,
        ),
        body is Some && body_error(body->0) is Some ==> ("；响应错误："@ + body_error(
            body->0,
        )->0).is_suffix_of(description(shown, server, mitigation, body, context)),
{
    let told = description(shown, server, mitigation, body, context);
    let reported = match body {
        Some(body) => body_error(body),
        None => None,
    };
    lemma_description(shown, server, mitigation, reported, context, told);
}

proof fn lemma_description(
    shown: Seq<char>,
    server: Option<Seq<char>>,
    mitigation: Option<Seq<char>>,
    reported: Option<Seq<char>>,
    context: Seq<char>,
    told: Seq<char>,
)
    requires
        ({
            let head = context + " 返回了 "@ + shown;
            let named = match server {
                Some(server) => head + "（服务器："@ + server + "）"@,
                None => head,
            };
            let shielded = match mitigation {
                Some(mitigation) => named + "；Cloudflare 防护："@ + mitigation,
                None => named,
            };
            told == match reported {
                Some(error) => shielded + "；响应错误："@ + error,
                None => shielded,
            }
        }),
    ensures
        (context + " 返回了 "@ + shown).is_prefix_of(told),
        server is None && mitigation is None && reported is None ==> told == context
            + " 返回了 "@ + shown,
        server is Some ==> (context + " 返回了 "@ + shown + "（服务器："@ + server->0
            + "）"@).is_prefix_of(told),
        mitigation is Some ==> contains_text(told, "；Cloudflare 防护："@ + mitigation->0),
        reported is Some ==> ("；响应错误："@ + reported->0).is_suffix_of(told),
{
    let head = context + " 返回了 "@ + shown;
    let named = match server {
        Some(server) => head + "（服务器："@ + server + "）"@,
        None => head,
    };
    let middle = match mitigation {
        Some(mitigation) => "；Cloudflare 防护："@ + mitigation,
        None => Seq::empty(),
    };
    let tail = match reported {
        Some(error) => "；响应错误："@ + error,
        None => Seq::empty(),
    };
    assert(told =~= named + middle + tail);
    lemma_parts_of_text(named, middle, tail);
    let rest = told.skip(head.len() as int);
    assert(told =~= head + rest + Seq::empty());
    lemma_parts_of_text(head, rest, Seq::empty());
}

} // verus!
