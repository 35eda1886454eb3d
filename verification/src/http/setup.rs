//! What the requests of a download have in common: the header fields and the
//! proxy.

use reqwest::header::HeaderMap;
use reqwest::Proxy;
use vstd::prelude::*;

use crate::error::{DlError, Result};
use crate::http::headers::{
    build_default_headers, fault_of, header_fields, is_crowded, is_first_unsendable, is_sendable,
    listed_fields,
};
use crate::types::DownloadOptions;

verus! {

/// The number of idle connections that are kept open when the options name no
/// number of connections.
pub const DEFAULT_IDLE_CONNECTIONS: usize = 32;

/// `reqwest::Proxy`. Nothing is claimed of it: it is carried to the code that
/// makes the connections.
#[verifier::external_type_specification]
#[verifier::external_body]
pub struct ExProxy(Proxy);

/// What `reqwest::Proxy::all` makes of a text: the proxy, or the text of the
/// error.
pub uninterp spec fn parsed_proxy(text: Seq<char>) -> std::result::Result<Proxy, Seq<char>>;

/// `reqwest::Proxy::all`: the proxy for all requests at the address that the
/// text names, or the text of the error. Which texts are such addresses, and
/// what the proxy holds, is the crate's own and stays unstated; both depend on
/// the text alone.
#[verifier::external_body]
fn parse_proxy(text: &str) -> (r: std::result::Result<Proxy, String>)
    ensures
        match r {
            Ok(proxy) => (parsed_proxy(text@) == Ok::<Proxy, Seq<char>>(proxy)),
            Err(fault) => (parsed_proxy(text@) == Err::<Proxy, Seq<char>>(fault@)),
        },
{
    Proxy::all(text).map_err(|error| error.to_string())
}

/// The text that tells of an address that is none of a proxy.
pub open spec fn proxy_text(fault: Seq<char>) -> Seq<char> {
    "代理地址无效："@ + fault
}

/// The error that tells of an address that is none of a proxy.
pub fn invalid_proxy(fault: &str) -> (error: DlError)
    ensures
        error matches DlError::InvalidHeader(text) && text@ == proxy_text(fault@),
{
    let mut text = "代理地址无效：".to_owned();
    text.append(fault);
    DlError::InvalidHeader(text)
}

/// The proxy at an address.
pub fn proxy_of(text: &str) -> (r: Result<Proxy>)
    ensures
        match r {
            Ok(proxy) => parsed_proxy(text@) == Ok::<Proxy, Seq<char>>(proxy),
            Err(error) => {
                &&& parsed_proxy(text@) matches Err(fault)
                &&& error matches DlError::InvalidHeader(message)
                &&& message@ == proxy_text(fault)
            },
        },
{
    match parse_proxy(text) {
        Ok(proxy) => Ok(proxy),
        Err(fault) => Err(invalid_proxy(fault.as_str())),
    }
}

/// What the requests of a download have in common.
pub struct RequestSetup {
    /// The header fields that each of them carries.
    pub fields: HeaderMap,
    pub proxy: Option<Proxy>,
    /// How many idle connections to a host are kept open.
    pub idle_connections: usize,
}

/// The proxy that the options name, where they name one, or what is wrong with
/// it.
pub open spec fn named_proxy(options: DownloadOptions) -> std::result::Result<
    Option<Proxy>,
    Seq<char>,
> {
    match options.proxy {
        Some(text) => match parsed_proxy(text@) {
            Ok(proxy) => Ok(Some(proxy)),
            Err(fault) => Err(fault),
        },
        None => Ok(None),
    }
}

/// Every header of the options can be sent.
pub open spec fn all_sendable(options: DownloadOptions) -> bool {
    forall|i: int| 0 <= i < options.headers@.len() ==> is_sendable(#[trigger] options.headers@[i])
}

/// What the requests of a download have in common. It is an error exactly where
/// a header cannot be sent or the proxy is none, and the first header that
/// cannot be sent comes before the proxy. `None` where a header map cannot hold
/// the headers, which takes more names than are sure to fit.
pub fn set_up(options: &DownloadOptions) -> (r: Result<Option<RequestSetup>>)
    ensures
        match r {
            Ok(Some(setup)) => {
                &&& all_sendable(*options)
                &&& header_fields(setup.fields) == listed_fields(options.headers@)
                &&& named_proxy(*options) == Ok::<Option<Proxy>, Seq<char>>(setup.proxy)
                &&& setup.idle_connections == (match options.connections {
                    Some(n) => n,
                    None => DEFAULT_IDLE_CONNECTIONS,
                })
                &&& options.connections is None ==> setup.idle_connections == 32
            },
            Ok(None) => exists|k: int| #[trigger] is_crowded(options.headers@, k),
            Err(error) => {
                &&& error matches DlError::InvalidHeader(text)
                &&& if all_sendable(*options) {
                    named_proxy(*options) matches Err(fault) && text@ == proxy_text(fault)
                } else {
                    exists|k: int| #[trigger]
                        is_first_unsendable(options.headers@, k) && text@ == fault_of(
                            options.headers@[k],
                        )
                }
            },
        },
{
    let fields = match build_default_headers(&options.headers) {
        Ok(Some(fields)) => fields,
        Ok(None) => return Ok(None),
        Err(error) => return Err(error),
    };
    let proxy = match &options.proxy {
        Some(text) => match proxy_of(text.as_str()) {
            Ok(proxy) => Some(proxy),
            Err(error) => return Err(error),
        },
        None => None,
    };
    let idle_connections: usize = match options.connections {
        Some(n) => n,
        None => DEFAULT_IDLE_CONNECTIONS,
    };
    Ok(Some(RequestSetup { fields, proxy, idle_connections }))
}

/// The requests go over the proxy that the options name, and over none where
/// they name none.
pub proof fn proxy_is_the_named_one(options: DownloadOptions, proxy: Option<Proxy>)
    requires
        named_proxy(options) == Ok::<Option<Proxy>, Seq<char>>(proxy),
    ensures
        options.proxy is None ==> proxy is None,
        options.proxy matches Some(text) ==> proxy is Some && parsed_proxy(text@) == Ok::<
            Proxy,
            Seq<char>,
        >(proxy->0),
{
}

/// What is told of an address that is none of a proxy ends in the fault.
pub proof fn proxy_fault_is_told(fault: Seq<char>)
    ensures
        proxy_text(fault) == "代理地址无效："@ + fault,
{
}

} // verus!
