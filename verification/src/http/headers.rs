//! Header fields: those that a download sends, and what is read off those that
//! a server sends.

use reqwest::header::{HeaderMap, HeaderName, HeaderValue};
use vstd::prelude::*;
use vstd::utf8::encode_utf8;

use crate::error::{DlError, Result};
use crate::text::{
    chars_of, contains, contains_text, decimal, decimal_reads_back, is_digit,
    lemma_decimal_digits, lowered, occurs_at, only_digits_are_numbers, parse_number,
    parsed_number, str_view, text_contains_its_parts, text_of, to_lower,
};

verus! {

/// A byte that a header value shows as text: a visible ASCII character, a
/// space or a tab.
pub open spec fn is_visible(b: u8) -> bool {
    32 <= b < 127 || b == 9
}

/// The text of ASCII bytes.
pub open spec fn ascii_text(bytes: Seq<u8>) -> Seq<char> {
    bytes.map_values(|b: u8| b as char)
}

/// The text of a header value, where it has one.
pub open spec fn shown_text(bytes: Seq<u8>) -> Option<Seq<char>> {
    if forall|i: int| 0 <= i < bytes.len() ==> is_visible(#[trigger] bytes[i]) {
        Some(ascii_text(bytes))
    } else {
        None
    }
}

/// What an optional header value holds.
pub open spec fn value_view(value: Option<&[u8]>) -> Option<Seq<u8>> {
    match value {
        Some(bytes) => Some(bytes@),
        None => None,
    }
}

/// What an optional header value holds.
pub open spec fn stored_view(value: Option<Vec<u8>>) -> Option<Seq<u8>> {
    match value {
        Some(bytes) => Some(bytes@),
        None => None,
    }
}

/// A borrowed view of an optional header value.
pub fn as_value(value: &Option<Vec<u8>>) -> (r: Option<&[u8]>)
    ensures
        value_view(r) == stored_view(*value),
{
    match value {
        Some(bytes) => Some(bytes.as_slice()),
        None => None,
    }
}

/// `reqwest::header::HeaderValue::to_str` on the value made of `bytes`: the
/// text, where every byte is a visible ASCII character, a space or a tab.
#[verifier::external_body]
fn header_text(bytes: &[u8]) -> (text: Option<String>)
    ensures
        (match text {
            Some(t) => Some(t@),
            None => None,
        }) == shown_text(bytes@),
{
    HeaderValue::from_bytes(bytes).ok()?.to_str().ok().map(str::to_string)
}

/// The text of a header field; `None` where the field is missing or no text.
pub open spec fn field_text(value: Option<Seq<u8>>) -> Option<Seq<char>> {
    match value {
        Some(bytes) => shown_text(bytes),
        None => None,
    }
}

/// The number in a header field.
pub open spec fn field_number(value: Option<Seq<u8>>) -> Option<u64> {
    match field_text(value) {
        Some(text) => match parsed_number(text) {
            Ok(n) => Some(n),
            Err(_) => None,
        },
        None => None,
    }
}

/// The text of a header field.
pub fn header_string(value: Option<&[u8]>) -> (r: Option<String>)
    ensures
        (match r {
            Some(t) => Some(t@),
            None => None,
        }) == field_text(value_view(value)),
{
    match value {
        Some(bytes) => header_text(bytes),
        None => None,
    }
}

/// The number in a header field.
pub fn header_u64(value: Option<&[u8]>) -> (r: Option<u64>)
    ensures
        r == field_number(value_view(value)),
{
    match header_string(value) {
        Some(text) => match parse_number(text.as_str()) {
            Ok(n) => Some(n),
            Err(_) => None,
        },
        None => None,
    }
}

/// What stands behind the last slash of a text.
pub open spec fn after_last_slash(s: Seq<char>) -> Option<Seq<char>>
    decreases s.len(),
{
    if s.len() == 0 {
        None
    } else if s.last() == '/' {
        Some(Seq::empty())
    } else {
        match after_last_slash(s.drop_last()) {
            Some(rest) => Some(rest.push(s.last())),
            None => None,
        }
    }
}

/// The size of the whole resource that a `Content-Range` names: the number
/// behind its last slash. A `*` there, for a size that is not known, is no
/// number.
pub open spec fn content_range_total(value: Option<Seq<u8>>) -> Option<u64> {
    match field_text(value) {
        Some(text) => match after_last_slash(text) {
            Some(total) => match parsed_number(total) {
                Ok(n) => Some(n),
                Err(_) => None,
            },
            None => None,
        },
        None => None,
    }
}

proof fn lemma_after_last_slash(s: Seq<char>, i: int)
    requires
        0 <= i < s.len(),
        s[i] == '/',
        forall|j: int| i < j < s.len() ==> s[j] != '/',
    ensures
        after_last_slash(s) == Some(s.skip(i + 1)),
    decreases s.len(),
{
    if i == s.len() - 1 {
        assert(s.skip(i + 1) =~= Seq::<char>::empty());
    } else {
        let head = s.drop_last();
        assert(head[i] == '/');
        assert forall|j: int| i < j < head.len() implies head[j] != '/' by {
            assert(s[j] != '/');
        }
        lemma_after_last_slash(head, i);
        assert(head.skip(i + 1).push(s.last()) =~= s.skip(i + 1));
        assert(s[s.len() - 1] != '/');
    }
}

proof fn lemma_no_slash(s: Seq<char>)
    requires
        forall|j: int| 0 <= j < s.len() ==> s[j] != '/',
    ensures
        after_last_slash(s) is None,
    decreases s.len(),
{
    if s.len() > 0 {
        assert(s[s.len() - 1] != '/');
        assert forall|j: int| 0 <= j < s.drop_last().len() implies s.drop_last()[j] != '/' by {
            assert(s[j] != '/');
        }
        lemma_no_slash(s.drop_last());
    }
}

/// The size of the whole resource that a `Content-Range` names.
pub fn parse_content_range_total(value: Option<&[u8]>) -> (r: Option<u64>)
    ensures
        r == content_range_total(value_view(value)),
{
    let text = match header_string(value) {
        Some(text) => text,
        None => return None,
    };
    let chars = chars_of(text.as_str());
    let mut i: usize = chars.len();
    while i > 0
        invariant
            chars@ == text@,
            i <= chars@.len(),
            Some(text@) == field_text(value_view(value)),
            forall|j: int| i <= j < chars@.len() ==> chars@[j] != '/',
        decreases i,
    {
        if chars[i - 1] == '/' {
            let total = text_of(chars.as_slice(), i, chars.len());
            proof {
                lemma_after_last_slash(chars@, i - 1);
                assert(chars@.subrange(i as int, chars@.len() as int) =~= chars@.skip(i as int));
            }
            return match parse_number(total.as_str()) {
                Ok(n) => Some(n),
                Err(_) => None,
            };
        }
        i -= 1;
    }
    proof {
        lemma_no_slash(chars@);
    }
    None
}

/// An `Accept-Ranges` field offers byte ranges.
pub open spec fn offers_ranges(value: Option<Seq<u8>>) -> bool {
    match field_text(value) {
        Some(text) => contains_text(lowered(text), "bytes"@),
        None => false,
    }
}

/// Whether an `Accept-Ranges` field offers byte ranges.
pub fn accepts_ranges(value: Option<&[u8]>) -> (r: bool)
    ensures
        r == offers_ranges(value_view(value)),
{
    match header_string(value) {
        Some(text) => contains(to_lower(text.as_str()).as_str(), "bytes"),
        None => false,
    }
}

/// `reqwest::header::HeaderValue`: nothing is claimed of it beyond what the
/// functions below say of the collection that holds it.
#[verifier::external_type_specification]
#[verifier::external_body]
pub struct ExHeaderValue(HeaderValue);

/// `reqwest::header::HeaderMap`, the header fields of a request.
#[verifier::external_type_specification]
#[verifier::external_body]
#[verifier::reject_recursive_types(T)]
pub struct ExHeaderMap<T>(HeaderMap<T>);

/// The fields in a header map: the bytes of the values of each name, in order.
pub uninterp spec fn header_fields(map: HeaderMap) -> Map<Seq<char>, Seq<Seq<u8>>>;

/// A character that a header name may hold.
pub open spec fn is_name_char(c: char) -> bool {
    ||| 'a' <= c <= 'z'
    ||| 'A' <= c <= 'Z'
    ||| '0' <= c <= '9'
    ||| c == '!' || c == '#' || c == '$' || c == '%' || c == '&' || c == '\'' || c == '*'
    ||| c == '+' || c == '-' || c == '.' || c == '^' || c == '_' || c == '`' || c == '|' || c == '~'
}

/// A text is a header name.
pub open spec fn is_header_name(s: Seq<char>) -> bool {
    &&& 0 < s.len() <= 0xffff
    &&& forall|i: int| 0 <= i < s.len() ==> is_name_char(#[trigger] s[i])
}

/// A text can be the value of a header: it holds no control characters but the
/// tab.
pub open spec fn is_header_value(s: Seq<char>) -> bool {
    forall|i: int|
        0 <= i < s.len() ==> (#[trigger] s[i] == '\t' || (s[i] as u32 >= 32 && s[i] as u32 != 127))
}

/// A text with the decimal notation of a number behind it can still be the value
/// of a header.
pub(crate) proof fn lemma_number_in_value(text: Seq<char>, n: nat)
    requires
        is_header_value(text),
    ensures
        is_header_value(text + decimal(n)),
{
    lemma_decimal_digits(n);
    let whole = text + decimal(n);
    assert forall|i: int| 0 <= i < whole.len() implies (#[trigger] whole[i] == '\t' || (
    whole[i] as u32 >= 32 && whole[i] as u32 != 127)) by {
        if i < text.len() {
            assert(whole[i] == text[i]);
        } else {
            assert(is_digit(decimal(n)[i - text.len()]));
        }
    }
}

/// `reqwest::header::HeaderName::from_bytes`: a header name is brought to lower
/// case, and any other text is refused with a fixed sentence.
#[verifier::external_body]
fn header_name(name: &str) -> (r: std::result::Result<String, String>)
    ensures
        match r {
            Ok(n) => is_header_name(name@) && n@ == lowered(name@),
            Err(e) => !is_header_name(name@) && e@ == "invalid HTTP header name"@,
        },
{
    match HeaderName::from_bytes(name.as_bytes()) {
        Ok(n) => Ok(n.as_str().to_string()),
        Err(e) => Err(e.to_string()),
    }
}

/// `reqwest::header::HeaderValue::from_str`: the bytes of a text that can be a
/// value, and a fixed sentence for any other.
#[verifier::external_body]
fn header_value(value: &str) -> (r: std::result::Result<Vec<u8>, String>)
    ensures
        match r {
            Ok(v) => is_header_value(value@) && v@ == encode_utf8(value@),
            Err(e) => !is_header_value(value@) && e@ == "failed to parse header value"@,
        },
{
    match HeaderValue::from_str(value) {
        Ok(v) => Ok(v.as_bytes().to_vec()),
        Err(e) => Err(e.to_string()),
    }
}

/// `reqwest::header::HeaderMap::new`: a map without fields.
#[verifier::external_body]
fn new_header_map() -> (map: HeaderMap)
    ensures
        (header_fields(map) == Map::<Seq<char>, Seq<Seq<u8>>>::empty()),
{
    HeaderMap::new()
}

/// The number of names up to which a header map takes another one whatever the
/// names are: below it, neither the growth of a full table nor the growth that
/// a run of colliding names forces reaches the map's limit.
pub const MAX_HEADER_FIELDS: usize = 6553;

/// The fields with another value of a name, behind those that it has.
pub open spec fn with_value(
    fields: Map<Seq<char>, Seq<Seq<u8>>>,
    name: Seq<char>,
    value: Seq<u8>,
) -> Map<Seq<char>, Seq<Seq<u8>>> {
    fields.insert(
        name,
        if fields.dom().contains(name) {
            fields[name].push(value)
        } else {
            seq![value]
        },
    )
}

/// `reqwest::header::HeaderMap::try_append`: the value is put behind those that
/// the name has, and the other fields stay. A map that has grown to its limit
/// refuses, and stays as it is; whether it does so depends on how the names
/// collide, and it never does with as many names as are sure to fit.
#[verifier::external_body]
fn append_header(map: &mut HeaderMap, name: &str, value: &str) -> (taken: bool)
    requires
        is_header_name(name@),
        is_header_value(value@),
    ensures
        header_fields(*final(map)) == (if taken {
            with_value(header_fields(*old(map)), lowered(name@), encode_utf8(value@))
        } else {
            header_fields(*old(map))
        }),
        header_fields(*old(map)).len() <= MAX_HEADER_FIELDS ==> taken,
{
    map.try_append(
        HeaderName::from_bytes(name.as_bytes()).unwrap(),
        HeaderValue::from_str(value).unwrap(),
    ).is_ok()
}

/// `reqwest::header::HeaderMap::try_insert`: the value becomes the only one of
/// the name, and the other fields stay. A map that has grown to its limit
/// refuses, and stays as it is; whether it does so depends on how the names
/// collide, and it never does with as many names as are sure to fit.
#[verifier::external_body]
fn set_header(map: &mut HeaderMap, name: &str, value: &str) -> (taken: bool)
    requires
        is_header_name(name@),
        is_header_value(value@),
    ensures
        header_fields(*final(map)) == (if taken {
            header_fields(*old(map)).insert(lowered(name@), seq![encode_utf8(value@)])
        } else {
            header_fields(*old(map))
        }),
        header_fields(*old(map)).len() <= MAX_HEADER_FIELDS ==> taken,
{
    map.try_insert(
        HeaderName::from_bytes(name.as_bytes()).unwrap(),
        HeaderValue::from_str(value).unwrap(),
    ).is_ok()
}

/// `reqwest::header::HeaderMap::clone`: a map with the same fields.
#[verifier::external_body]
fn copy_header_map(map: &HeaderMap) -> (copy: HeaderMap)
    ensures
        header_fields(copy) == header_fields(*map),
{
    map.clone()
}

/// The fields of a list of headers: each header adds its value to those that
/// its name has.
pub open spec fn listed_fields(headers: Seq<(String, String)>) -> Map<Seq<char>, Seq<Seq<u8>>>
    decreases headers.len(),
{
    if headers.len() == 0 {
        Map::empty()
    } else {
        with_value(
            listed_fields(headers.drop_last()),
            lowered(headers.last().0@),
            encode_utf8(headers.last().1@),
        )
    }
}

/// A header can be sent.
pub open spec fn is_sendable(header: (String, String)) -> bool {
    is_header_name(header.0@) && is_header_value(header.1@)
}

/// The headers up to the one at position `k` can be sent, and there are more
/// names before it than are sure to fit into a header map.
pub open spec fn is_crowded(headers: Seq<(String, String)>, k: int) -> bool {
    &&& 0 <= k < headers.len()
    &&& forall|j: int| 0 <= j <= k ==> is_sendable(#[trigger] headers[j])
    &&& listed_fields(headers.take(k)).len() > MAX_HEADER_FIELDS
}

/// The fields that every request of a download carries; an error that names
/// the fault of the first header that cannot be sent; `None` where a header map
/// cannot hold them, which takes more names than are sure to fit.
pub fn build_default_headers(headers: &Vec<(String, String)>) -> (r: Result<Option<HeaderMap>>)
    ensures
        match r {
            Ok(Some(map)) => {
                &&& forall|i: int| 0 <= i < headers@.len() ==> is_sendable(#[trigger] headers@[i])
                &&& header_fields(map) == listed_fields(headers@)
            },
            Ok(None) => exists|k: int| #[trigger] is_crowded(headers@, k),
            Err(error) => {
                &&& error matches DlError::InvalidHeader(text)
                &&& exists|k: int| #[trigger]
                    is_first_unsendable(headers@, k) && text@ == fault_of(headers@[k])
            },
        },
{
    let mut map = new_header_map();
    let mut i: usize = 0;
    while i < headers.len()
        invariant
            i <= headers@.len(),
            forall|j: int| 0 <= j < i ==> is_sendable(#[trigger] headers@[j]),
            header_fields(map) == listed_fields(headers@.take(i as int)),
        decreases headers@.len() - i,
    {
        let name = headers[i].0.as_str();
        let value = headers[i].1.as_str();
        if let Err(text) = header_name(name) {
            assert(is_first_unsendable(headers@, i as int));
            return Err(DlError::InvalidHeader(text));
        }
        if let Err(text) = header_value(value) {
            assert(is_first_unsendable(headers@, i as int));
            return Err(DlError::InvalidHeader(text));
        }
        assert(headers@.take(i + 1).drop_last() =~= headers@.take(i as int));
        if !append_header(&mut map, name, value) {
            assert(is_crowded(headers@, i as int));
            return Ok(None);
        }
        i += 1;
    }
    assert(headers@.take(i as int) =~= headers@);
    Ok(Some(map))
}

/// The fields of one request: those of every request, and its own `Range`, which
/// counts alone.
pub open spec fn request_fields(
    fields: Map<Seq<char>, Seq<Seq<u8>>>,
    range: Option<Seq<char>>,
) -> Map<Seq<char>, Seq<Seq<u8>>> {
    match range {
        Some(text) => fields.insert("range"@, seq![encode_utf8(text)]),
        None => fields,
    }
}

/// The fields of one request; `None` where a header map cannot hold them, which
/// takes more names than are sure to fit.
pub fn build_request_headers(fields: &HeaderMap, range: Option<&str>) -> (r: Option<HeaderMap>)
    requires
        range matches Some(text) ==> is_header_value(text@),
    ensures
        match r {
            Some(map) => header_fields(map) == request_fields(
                header_fields(*fields),
                str_view(range),
            ),
            None => range is Some && header_fields(*fields).len() > MAX_HEADER_FIELDS,
        },
{
    let mut map = copy_header_map(fields);
    if let Some(text) = range {
        proof {
            reveal_strlit("range");
            assert(is_header_name("range"@));
            assert(lowered("range"@) =~= "range"@);
        }
        if !set_header(&mut map, "range", text) {
            return None;
        }
    }
    Some(map)
}

/// Every header of the list goes out with every request, also where several
/// have the same name; only a `Range` gives way to the one that the request
/// itself needs.
pub proof fn every_header_is_sent(
    headers: Seq<(String, String)>,
    range: Option<Seq<char>>,
    k: int,
)
    requires
        0 <= k < headers.len(),
        range is None || lowered(headers[k].0@) != "range"@,
    ensures
        ({
            let sent = request_fields(listed_fields(headers), range);
            let name = lowered(headers[k].0@);
            &&& sent.dom().contains(name)
            &&& sent[name].contains(encode_utf8(headers[k].1@))
        }),
{
    lemma_listed(headers, k);
}

proof fn lemma_listed(headers: Seq<(String, String)>, k: int)
    requires
        0 <= k < headers.len(),
    ensures
        listed_fields(headers).dom().contains(lowered(headers[k].0@)),
        listed_fields(headers)[lowered(headers[k].0@)].contains(encode_utf8(headers[k].1@)),
    decreases headers.len(),
{
    let name = lowered(headers[k].0@);
    let value = encode_utf8(headers[k].1@);
    let values = listed_fields(headers)[name];
    if k == headers.len() - 1 {
        assert(values[values.len() - 1] == value);
    } else {
        lemma_listed(headers.drop_last(), k);
        let before = listed_fields(headers.drop_last())[name];
        let at = before.index_of(value);
        assert(before[at] == value);
        assert(values[at] == value);
    }
}

/// The header at position `k` cannot be sent, and all before it can.
pub open spec fn is_first_unsendable(headers: Seq<(String, String)>, k: int) -> bool {
    &&& 0 <= k < headers.len()
    &&& !is_sendable(headers[k])
    &&& forall|j: int| 0 <= j < k ==> is_sendable(#[trigger] headers[j])
}

/// What is wrong with a header that cannot be sent: the name is looked at
/// before the value.
pub open spec fn fault_of(header: (String, String)) -> Seq<char> {
    if !is_header_name(header.0@) {
        "invalid HTTP header name"@
    } else {
        "failed to parse header value"@
    }
}

/// The value of a field is read byte for byte as text, where each byte is a
/// visible character of ASCII, a space or a tab, and is no text otherwise.
pub proof fn field_is_read_byte_for_byte(bytes: Seq<u8>, i: int)
    requires
        0 <= i < bytes.len(),
    ensures
        !(32 <= bytes[i] <= 126 || bytes[i] == 9) ==> field_text(Some(bytes)) is None,
        (forall|k: int|
            0 <= k < bytes.len() ==> 32 <= #[trigger] bytes[k] <= 126 || bytes[k] == 9)
            ==> field_text(Some(bytes)) is Some && field_text(Some(bytes))->0.len() == bytes.len()
            && field_text(Some(bytes))->0[i] as int == bytes[i],
        field_text(None) is None,
{
}

/// A text is written into a field: one byte for each character, each of them a
/// visible character of ASCII, a space or a tab.
pub open spec fn is_written_as(text: Seq<char>, bytes: Seq<u8>) -> bool {
    &&& bytes.len() == text.len()
    &&& forall|k: int|
        0 <= k < bytes.len() ==> #[trigger] bytes[k] as int == text[k] as int && (32 <= bytes[k]
            <= 126 || bytes[k] == 9)
}

proof fn lemma_written_field(text: Seq<char>, bytes: Seq<u8>)
    requires
        is_written_as(text, bytes),
    ensures
        field_text(Some(bytes)) == Some(text),
{
    assert(forall|i: int| 0 <= i < bytes.len() ==> is_visible(#[trigger] bytes[i]));
    assert forall|k: int| 0 <= k < bytes.len() implies ascii_text(bytes)[k] == text[k] by {
        assert(bytes[k] as int == text[k] as int);
    }
    assert(ascii_text(bytes) =~= text);
}

/// A field that holds the decimal notation of a number is read as that number.
pub proof fn decimal_field_is_its_number(n: u64, bytes: Seq<u8>)
    requires
        is_written_as(decimal(n as nat), bytes),
    ensures
        field_number(Some(bytes)) == Some(n),
{
    lemma_written_field(decimal(n as nat), bytes);
    decimal_reads_back(n);
}

/// A field with anything but digits, a leading plus sign aside, and a field that
/// is missing hold no number.
pub proof fn other_field_is_no_number(text: Seq<char>, bytes: Seq<u8>, i: int)
    requires
        is_written_as(text, bytes),
        0 <= i < text.len(),
        !('0' <= text[i] <= '9'),
        i > 0 || text[0] != '+',
    ensures
        field_number(Some(bytes)) is None,
        field_number(None) is None,
{
    lemma_written_field(text, bytes);
    only_digits_are_numbers(text, i);
}

/// A `Content-Range` names the whole size behind its last slash, whatever stands
/// before that; a `*` there, and a field without a slash, name none.
pub proof fn content_range_names_the_whole_size(before: Seq<char>, n: u64, bytes: Seq<u8>)
    ensures
        is_written_as(before.push('/') + decimal(n as nat), bytes) ==> content_range_total(
            Some(bytes),
        ) == Some(n),
        is_written_as(before.push('/').push('*'), bytes) ==> content_range_total(
            Some(bytes),
        ) is None,
        is_written_as(before, bytes) && !before.contains('/') ==> content_range_total(
            Some(bytes),
        ) is None,
        content_range_total(None) is None,
{
    let whole = before.push('/') + decimal(n as nat);
    if is_written_as(whole, bytes) {
        lemma_written_field(whole, bytes);
        lemma_decimal_digits(n as nat);
        assert forall|j: int| before.len() < j < whole.len() implies whole[j] != '/' by {
            assert(is_digit(decimal(n as nat)[j - before.len() - 1]));
        }
        lemma_after_last_slash(whole, before.len() as int);
        assert(whole.skip((before.len() + 1) as int) =~= decimal(n as nat));
        decimal_reads_back(n);
    }
    let unknown = before.push('/').push('*');
    if is_written_as(unknown, bytes) {
        lemma_written_field(unknown, bytes);
        lemma_after_last_slash(unknown, before.len() as int);
        assert(unknown.skip((before.len() + 1) as int) =~= seq!['*']);
        only_digits_are_numbers(seq!['*'], 0);
    }
    if is_written_as(before, bytes) && !before.contains('/') {
        lemma_written_field(before, bytes);
        assert forall|j: int| 0 <= j < before.len() implies before[j] != '/' by {
            assert(before.contains(before[j]));
        }
        lemma_no_slash(before);
    }
}

/// An `Accept-Ranges` field offers ranges where `bytes` stands anywhere in it,
/// in letters of either case; without a `b` or `B` it does not, nor where it is
/// missing.
pub proof fn ranges_are_offered_in_bytes(
    text: Seq<char>,
    bytes: Seq<u8>,
    before: Seq<char>,
    after: Seq<char>,
)
    requires
        is_written_as(text, bytes),
    ensures
        lowered(text) == before + "bytes"@ + after ==> offers_ranges(Some(bytes)),
        !text.contains('b') && !text.contains('B') ==> !offers_ranges(Some(bytes)),
        !offers_ranges(None),
{
    lemma_written_field(text, bytes);
    text_contains_its_parts(before, "bytes"@, after);
    reveal_strlit("bytes");
    if !text.contains('b') && !text.contains('B') {
        assert forall|i: int| !occurs_at(lowered(text), "bytes"@, i) by {
            if occurs_at(lowered(text), "bytes"@, i) {
                assert(lowered(text).subrange(i, i + 5)[0] == "bytes"@[0]);
                assert(lowered(text)[i] == 'b');
                assert(text.contains(text[i]));
            }
        }
    }
}

/// A header that is added to the list adds its value behind those that its name
/// has, whatever the case of its letters, and changes no other field.
pub proof fn header_is_added_behind(
    headers: Seq<(String, String)>,
    header: (String, String),
    other: Seq<char>,
)
    ensures
        ({
            let before = listed_fields(headers);
            let after = listed_fields(headers.push(header));
            let name = lowered(header.0@);
            &&& after.dom().contains(name)
            &&& before.dom().contains(name) ==> after[name] == before[name].push(
                encode_utf8(header.1@),
            )
            &&& !before.dom().contains(name) ==> after[name] == seq![encode_utf8(header.1@)]
            &&& other != name ==> after.dom().contains(other) == before.dom().contains(other)
                && after[other] == before[other]
        }),
        listed_fields(Seq::empty()) == Map::<Seq<char>, Seq<Seq<u8>>>::empty(),
{
    assert(headers.push(header).drop_last() =~= headers);
}

/// Nothing goes out with a request that is neither a header of the list nor the
/// range that the request needs.
pub proof fn nothing_else_is_sent(
    headers: Seq<(String, String)>,
    range: Option<Seq<char>>,
    name: Seq<char>,
    value: Seq<u8>,
)
    requires
        request_fields(listed_fields(headers), range).dom().contains(name),
        request_fields(listed_fields(headers), range)[name].contains(value),
    ensures
        (range is Some && name == "range"@ && value == encode_utf8(range->0)) || exists|k: int|
            0 <= k < headers.len() && lowered((#[trigger] headers[k]).0@) == name && encode_utf8(
                headers[k].1@,
            ) == value,
{
    if range is Some && name == "range"@ {
        let sent = request_fields(listed_fields(headers), range)[name];
        let at = sent.index_of(value);
        assert(sent[at] == value);
    } else {
        lemma_listed_back(headers, name, value);
    }
}

proof fn lemma_listed_back(headers: Seq<(String, String)>, name: Seq<char>, value: Seq<u8>)
    requires
        listed_fields(headers).dom().contains(name),
        listed_fields(headers)[name].contains(value),
    ensures
        exists|k: int|
            0 <= k < headers.len() && lowered((#[trigger] headers[k]).0@) == name && encode_utf8(
                headers[k].1@,
            ) == value,
    decreases headers.len(),
{
    if headers.len() > 0 {
        let last = headers.last();
        assert(headers[headers.len() - 1] == last);
        let values = listed_fields(headers)[name];
        let at = values.index_of(value);
        assert(values[at] == value);
        if !(lowered(last.0@) == name && encode_utf8(last.1@) == value) {
            let before = listed_fields(headers.drop_last());
            assert(before.dom().contains(name));
            assert(before[name][at] == value);
            lemma_listed_back(headers.drop_last(), name, value);
            let k = choose|k: int|
                0 <= k < headers.drop_last().len() && lowered(
                    (#[trigger] headers.drop_last()[k]).0@,
                ) == name && encode_utf8(headers.drop_last()[k].1@) == value;
            assert(headers[k] == headers.drop_last()[k]);
        }
    }
}

/// A request that needs a range carries that range and no other, and one that
/// needs none carries the fields of every request.
pub proof fn request_carries_its_own_range(
    fields: Map<Seq<char>, Seq<Seq<u8>>>,
    range: Seq<char>,
    other: Seq<char>,
)
    ensures
        request_fields(fields, Some(range)).dom().contains("range"@),
        request_fields(fields, Some(range))["range"@] == seq![encode_utf8(range)],
        other != "range"@ ==> request_fields(fields, Some(range)).dom().contains(other)
            == fields.dom().contains(other) && request_fields(fields, Some(range))[other]
            == fields[other],
        request_fields(fields, None) == fields,
{
}

/// Of a header that cannot be sent, the name is at fault wherever it is no name,
/// and the value only where the name is one.
pub proof fn name_is_faulted_before_the_value(header: (String, String))
    ensures
        !is_header_name(header.0@) ==> !is_sendable(header) && fault_of(header)
            == "invalid HTTP header name"@,
        is_header_name(header.0@) && !is_header_value(header.1@) ==> !is_sendable(header)
            && fault_of(header) == "failed to parse header value"@,
        is_header_name(header.0@) && is_header_value(header.1@) ==> is_sendable(header),
{
}

} // verus!
