use libdl::error::is_error_retryable;
use libdl::http::headers::{
    accepts_ranges, build_default_headers, build_request_headers, header_string, header_u64,
    parse_content_range_total,
};
use libdl::http::probe::{
    first_byte_header, probe_step, HttpProbe, ProbeAction, ProbeEvent, ResponseInfo,
};
use libdl::http::rate::RateLimiter;
use libdl::http::retry::{
    get_jitter_ms, segment_retry, segment_retry_with, single_retry, single_retry_with, Retry,
};
use libdl::http::scaler::{DynamicScaler, ScalerAction, SpeedReading};
use libdl::http::setup::{invalid_proxy, proxy_of, set_up};
use libdl::http::single::{accept_single_response, rest_header, SingleTransfer};
use libdl::http::status::{describe_status, extract_response_error, status_error, xml_tag};
use libdl::http::transfer::{
    accept_range_response, range_header, ReportMeter, SegmentTransfer,
};
use libdl::links::{
    is_http_or_keys_and_tokens_stripped, urls_are_compatible, weak_validator_matches,
};
use libdl::{DlError, DownloadOptions, DownloadPhase, Segment};

const SEC: u128 = 1_000_000_000;

fn rate_limited(retry_after: Option<u64>) -> DlError {
    DlError::RateLimited {
        message: "slow down".to_string(),
        retry_after,
    }
}

#[test]
fn header_values_are_read_as_text_and_numbers() {
    assert_eq!(header_string(Some(b"abc")), Some("abc".to_string()));
    assert_eq!(header_string(Some(b"a\tb")), Some("a\tb".to_string()));
    assert_eq!(header_string(Some("é".as_bytes())), None);
    assert_eq!(header_string(None), None);
    assert_eq!(header_u64(Some(b"42")), Some(42));
    assert_eq!(header_u64(Some(b"+42")), Some(42));
    assert_eq!(header_u64(Some(b"-1")), None);
    assert_eq!(header_u64(Some(b" 42")), None);
    assert_eq!(header_u64(Some(b"18446744073709551616")), None);
}

#[test]
fn content_range_names_the_whole_size() {
    assert_eq!(parse_content_range_total(Some(b"bytes 0-0/128")), Some(128));
    assert_eq!(parse_content_range_total(Some(b"bytes 0-0/1/7")), Some(7));
    assert_eq!(parse_content_range_total(Some(b"bytes 0-0/*")), None);
    assert_eq!(parse_content_range_total(Some(b"bytes 0-0")), None);
    assert_eq!(parse_content_range_total(None), None);
}

#[test]
fn ranges_are_offered_in_either_case() {
    assert!(accepts_ranges(Some(b"bytes")));
    assert!(accepts_ranges(Some(b"none, BYTES")));
    assert!(!accepts_ranges(Some(b"none")));
    assert!(!accepts_ranges(None));
}

fn pairs(list: &[(&str, &str)]) -> Vec<(String, String)> {
    list.iter()
        .map(|(name, value)| (name.to_string(), value.to_string()))
        .collect()
}

fn values(map: &reqwest::header::HeaderMap, name: &str) -> Vec<Vec<u8>> {
    map.get_all(name).iter().map(|value| value.as_bytes().to_vec()).collect()
}

#[test]
fn every_default_header_is_kept() {
    let headers = pairs(&[("Referer", "https://a"), ("X-A", "1"), ("x-a", "中"), ("X-A", "1")]);
    let map = build_default_headers(&headers).unwrap().unwrap();
    assert_eq!(map.keys_len(), 2);
    assert_eq!(values(&map, "referer"), vec![b"https://a".to_vec()]);
    assert_eq!(
        values(&map, "X-A"),
        vec![b"1".to_vec(), "中".as_bytes().to_vec(), b"1".to_vec()]
    );
}

#[test]
fn requests_carry_every_header_and_their_own_range() {
    let headers = pairs(&[("A", "1"), ("a", "2"), ("Range", "bytes=9-9"), ("range", "x")]);
    let fields = build_default_headers(&headers).unwrap().unwrap();
    let plain = build_request_headers(&fields, None).unwrap();
    assert_eq!(values(&plain, "a"), vec![b"1".to_vec(), b"2".to_vec()]);
    assert_eq!(values(&plain, "range").len(), 2);
    let ranged = build_request_headers(&fields, Some(first_byte_header())).unwrap();
    assert_eq!(values(&ranged, "a"), vec![b"1".to_vec(), b"2".to_vec()]);
    assert_eq!(values(&ranged, "range"), vec![b"bytes=0-0".to_vec()]);
    assert_eq!(values(&fields, "range").len(), 2);
}

#[test]
fn names_fill_a_header_map_and_values_do_not() {
    let same: Vec<(String, String)> = (0..30_000_u32)
        .map(|n| ("a".to_string(), n.to_string()))
        .collect();
    let map = build_default_headers(&same).unwrap().unwrap();
    assert_eq!(map.len(), 30_000);
    let named = |count: u32| -> Vec<(String, String)> {
        (0..count).map(|n| (format!("n{n}"), "1".to_string())).collect()
    };
    let map = build_default_headers(&named(6_554)).unwrap().unwrap();
    assert_eq!(map.keys_len(), 6_554);
    assert!(build_default_headers(&named(33_000)).unwrap().is_none());
}

#[test]
fn proxies_are_judged_before_anything_is_sent() {
    assert!(proxy_of("http://127.0.0.1:8080").is_ok());
    assert!(proxy_of("127.0.0.1:8080").is_ok());
    let fault = match reqwest::Proxy::all("http://[") {
        Ok(_) => panic!("the address is cut short"),
        Err(error) => error.to_string(),
    };
    match proxy_of("http://[") {
        Err(error) => assert_eq!(error.to_text(), invalid_proxy(&fault).to_text()),
        Ok(_) => panic!("the address is cut short"),
    }
    assert_eq!(invalid_proxy("x").to_text(), "请求头无效：代理地址无效：x");

    let setup = set_up(&DownloadOptions {
        connections: Some(3),
        headers: pairs(&[("a", "1")]),
        proxy: Some("http://p".to_string()),
        ..DownloadOptions::default()
    });
    let setup = setup.unwrap().unwrap();
    assert_eq!(setup.idle_connections, 3);
    assert_eq!(setup.fields.len(), 1);
    let shown = |proxy: &reqwest::Proxy| format!("{proxy:?}");
    let asked = reqwest::Proxy::all("http://p").unwrap();
    assert_eq!(shown(&setup.proxy.unwrap()), shown(&asked));
    assert_ne!(shown(&proxy_of("http://q").unwrap()), shown(&asked));
    let plain = set_up(&DownloadOptions::default()).unwrap().unwrap();
    assert_eq!(plain.idle_connections, 32);
    assert!(plain.proxy.is_none());

    let refused = |headers: &[(&str, &str)], proxy: &str| {
        let options = DownloadOptions {
            headers: pairs(headers),
            proxy: Some(proxy.to_string()),
            ..DownloadOptions::default()
        };
        match set_up(&options) {
            Err(error) => error.to_text(),
            Ok(_) => panic!("the options are refused"),
        }
    };
    assert!(refused(&[("a", "1")], "http://[").starts_with("请求头无效：代理地址无效："));
    assert_eq!(
        refused(&[("a b", "1")], "http://["),
        "请求头无效：invalid HTTP header name"
    );
}

#[test]
fn first_bad_header_is_reported() {
    let bad_name = vec![("a b".to_string(), "1\n".to_string())];
    let error = build_default_headers(&bad_name).unwrap_err();
    assert!(matches!(error, DlError::InvalidHeader(ref text) if text == "invalid HTTP header name"));
    let bad_value = vec![
        ("ok".to_string(), "1".to_string()),
        ("a".to_string(), "1\n".to_string()),
    ];
    let error = build_default_headers(&bad_value).unwrap_err();
    assert_eq!(error.to_text(), "请求头无效：failed to parse header value");
}

#[test]
fn xml_tags_are_cut_out_and_trimmed() {
    assert_eq!(xml_tag("<a> x </a>", "a"), Some("x".to_string()));
    assert_eq!(xml_tag("</a><a>中</a>", "a"), Some("中".to_string()));
    assert_eq!(xml_tag("<a>x", "a"), None);
    assert_eq!(xml_tag("x</a>", "a"), None);
}

#[test]
fn response_errors_are_told_with_what_was_signed() {
    assert_eq!(extract_response_error("<Message>m</Message>"), None);
    assert_eq!(extract_response_error("<Code>C</Code>"), Some("C".to_string()));
    let body = "<Code>C</Code><Message>m</Message><StringToSign>s</StringToSign>\
                <CanonicalRequest>r</CanonicalRequest>";
    assert_eq!(
        extract_response_error(body).unwrap(),
        "C: m\nCanonicalRequest calculated by S3:\nr\nStringToSign calculated by S3:\ns"
    );
}

#[test]
fn statuses_are_described_with_their_reason() {
    assert_eq!(describe_status(404, None, None, None, "GET"), "GET 返回了 404 Not Found");
    assert_eq!(
        describe_status(
            503,
            Some(b"nginx"),
            Some(b"challenge"),
            Some("<Code>Busy</Code>"),
            "GET"
        ),
        "GET 返回了 503 Service Unavailable（服务器：nginx）；Cloudflare 防护：challenge；响应错误：Busy"
    );
    assert!(describe_status(799, None, None, None, "GET").starts_with("GET 返回了 799"));
}

#[test]
fn statuses_become_errors() {
    let limited = status_error(429, Some(b"7"), "d".to_string());
    assert!(matches!(limited, DlError::RateLimited { retry_after: Some(7), .. }));
    let unclear = status_error(429, Some(b"soon"), "d".to_string());
    assert!(matches!(unclear, DlError::RateLimited { retry_after: None, .. }));
    assert!(matches!(status_error(500, None, "d".to_string()), DlError::ServerError(_)));
    assert!(matches!(status_error(599, None, "d".to_string()), DlError::ServerError(_)));
    assert!(matches!(status_error(408, None, "d".to_string()), DlError::ServerError(_)));
    assert!(matches!(status_error(404, None, "d".to_string()), DlError::InvalidResponse(_)));
}

#[test]
fn some_errors_are_worth_another_try() {
    assert!(is_error_retryable(&rate_limited(None)));
    assert!(is_error_retryable(&DlError::ServerError("x".to_string())));
    assert!(is_error_retryable(&DlError::Http("x".to_string())));
    assert!(is_error_retryable(&DlError::InvalidResponse("x".to_string())));
    assert!(is_error_retryable(&DlError::InvalidResponse("returned 408".to_string())));
    assert!(is_error_retryable(&DlError::InvalidResponse("returned 429".to_string())));
    assert!(!is_error_retryable(&DlError::InvalidResponse("GET returned 404".to_string())));
    assert!(!is_error_retryable(&DlError::Io("x".to_string())));
    assert!(!is_error_retryable(&DlError::RangesUnsupported));
    assert!(!is_error_retryable(&DlError::Torrent("x".to_string())));
}

#[test]
fn errors_have_a_text() {
    assert_eq!(DlError::Io("a".to_string()).to_text(), "输入输出错误：a");
    assert_eq!(DlError::Http("a".to_string()).to_text(), "HTTP 错误：a");
    assert_eq!(rate_limited(Some(1)).to_text(), "请求被限速：slow down");
    assert_eq!(DlError::RangesUnsupported.to_text(), "服务器不支持可恢复的分段下载");
    assert_eq!(DlError::Serialization("a".to_string()).to_text(), "序列化错误：a");
    assert_eq!(DlError::Torrent("a".to_string()).to_text(), "种子错误：a");
    assert_eq!(DlError::Join("a".to_string()).to_text(), "工作线程任务失败：a");
}

#[test]
fn segments_are_tried_six_times() {
    let error = DlError::ServerError("x".to_string());
    let delays: Vec<Retry> = (1..=6).map(|n| segment_retry_with(&error, n, 7)).collect();
    let millis = |n: u128| Retry::After(n * 1_000_000);
    assert_eq!(
        delays,
        vec![
            millis(1007),
            millis(2007),
            millis(4007),
            millis(8007),
            millis(16007),
            Retry::GiveUp
        ]
    );
    assert_eq!(segment_retry_with(&rate_limited(None), 3, 7), Retry::After(5 * SEC));
    assert_eq!(segment_retry_with(&rate_limited(Some(90)), 3, 7), Retry::After(90 * SEC));
    assert_eq!(
        segment_retry_with(&DlError::Io("x".to_string()), 1, 7),
        Retry::GiveUp
    );
}

#[test]
fn single_streams_are_tried_five_times() {
    let error = DlError::Http("x".to_string());
    assert_eq!(single_retry_with(&error, 4, 0), Retry::After(8 * SEC));
    assert_eq!(single_retry_with(&error, 5, 0), Retry::GiveUp);
    assert_eq!(single_retry_with(&rate_limited(None), 2, 1), Retry::After(4_001_000_000));
    assert_eq!(single_retry_with(&rate_limited(Some(90)), 1, 0), Retry::After(30 * SEC));
    assert_eq!(single_retry_with(&rate_limited(Some(9)), 1, 0), Retry::After(9 * SEC));
}

#[test]
fn jitter_stays_below_its_limit() {
    let draws: Vec<u64> = (0..200).map(|_| get_jitter_ms()).collect();
    assert!(draws.iter().all(|&n| n < 500));
    assert!(draws.iter().any(|&n| n != draws[0]));
    let error = DlError::ServerError("x".to_string());
    assert!(matches!(segment_retry(&error, 1), Retry::After(t) if t >= SEC && t < SEC + SEC / 2));
    assert!(matches!(single_retry(&error, 1), Retry::After(t) if t >= SEC && t < SEC + SEC / 2));
    assert_eq!(segment_retry(&error, 6), Retry::GiveUp);
}

fn response(status: u16) -> ResponseInfo {
    ResponseInfo {
        status,
        content_range: Some(b"bytes 0-0/512".to_vec()),
        content_length: Some(b"1024".to_vec()),
        accept_ranges: Some(b"bytes".to_vec()),
        etag: Some(b"\"test\"".to_vec()),
        last_modified: None,
    }
}

fn probed(action: ProbeAction) -> HttpProbe {
    match action {
        ProbeAction::Done(probe) => probe,
        _ => panic!("the probe is not done"),
    }
}

#[test]
fn probe_asks_on_until_an_answer_tells() {
    let ranged = probed(probe_step(ProbeEvent::Range(response(206))));
    assert_eq!(ranged.total_size, Some(512));
    assert!(ranged.ranges_supported);
    assert_eq!(ranged.etag.as_deref(), Some("\"test\""));

    let whole = probed(probe_step(ProbeEvent::Range(response(200))));
    assert_eq!(whole.total_size, Some(1024));
    assert!(!whole.ranges_supported);

    assert!(matches!(probe_step(ProbeEvent::Range(response(404))), ProbeAction::SendHead));
    assert!(matches!(probe_step(ProbeEvent::Head(None)), ProbeAction::SendGet));
    assert!(matches!(probe_step(ProbeEvent::Head(Some(response(405)))), ProbeAction::SendGet));
    let head = probed(probe_step(ProbeEvent::Head(Some(response(200)))));
    assert_eq!(head.total_size, Some(1024));
    assert!(head.ranges_supported);
    let get = probed(probe_step(ProbeEvent::Get(response(204))));
    assert!(get.ranges_supported);
    let nothing = probed(probe_step(ProbeEvent::Get(response(500))));
    assert_eq!(nothing.total_size, None);
    assert!(!nothing.ranges_supported);
    assert_eq!(nothing.etag, None);
}

#[test]
fn rate_limit_spaces_the_bookings() {
    let mut limiter = RateLimiter::new(100, 0);
    assert_eq!(limiter.reserve(0, SEC), 0);
    assert_eq!(limiter.reserve(0, SEC), SEC);
    assert_eq!(limiter.reserve(SEC / 2, SEC), 3 * SEC / 2);
    assert_eq!(limiter.reserve(10 * SEC, SEC), 0);
    assert_eq!(RateLimiter::new(0, 0).rate, 1);

    // A hundred bytes a second: a piece of fifty books half a second.
    let mut shared = RateLimiter::new(100, 0);
    let turns: Vec<u128> = (0..5).map(|_| shared.reserve(0, SEC / 2)).collect();
    for (i, from) in turns.iter().enumerate() {
        for (j, to) in turns.iter().enumerate().skip(i) {
            assert!(50 * (j - i) as u128 * SEC <= 100 * (to - from));
        }
    }
}

#[test]
fn scaler_grows_and_shrinks_with_the_speed() {
    let faster = |speed: u64| SpeedReading { speed, improved: true };
    let slower = |speed: u64| SpeedReading { speed, improved: false };
    let mut scaler = DynamicScaler::new(4, 0, 0);
    assert_eq!(scaler.update(10, false, SEC / 4, faster(9)), None);
    assert_eq!(scaler.last_bytes, 0);
    assert_eq!(
        scaler.update(10, false, SEC, faster(9)),
        Some(ScalerAction::ScaleUp { count: 2, start_id: 4 })
    );
    assert_eq!(scaler.window(30, 3 * SEC), Some((20, 2 * SEC)));
    assert_eq!(
        scaler.update(30, false, 3 * SEC, faster(10)),
        Some(ScalerAction::ScaleUp { count: 2, start_id: 6 })
    );
    assert_eq!(
        scaler.update(40, false, 5 * SEC, slower(5)),
        Some(ScalerAction::ScaleDown { count: 2 })
    );
    assert_eq!(scaler.last_speed, None);
    assert_eq!(scaler.update(40, true, 7 * SEC, faster(50)), None);
    assert_eq!(
        scaler.update(50, false, 9 * SEC, slower(5)),
        Some(ScalerAction::ScaleUp { count: 2, start_id: 8 })
    );
    assert_eq!(scaler.update(50, false, 11 * SEC, slower(5)), None);
    assert_eq!(scaler.current_worker_count, 8);
}

#[test]
fn scaler_stays_within_its_bounds() {
    let mut scaler = DynamicScaler::new(31, 0, 0);
    assert_eq!(
        scaler.update(1, false, SEC, SpeedReading { speed: 0, improved: false }),
        Some(ScalerAction::ScaleUp { count: 1, start_id: 31 })
    );
    assert_eq!(
        scaler.update(1, false, 2 * SEC, SpeedReading { speed: 3, improved: true }),
        None
    );
    assert_eq!(scaler.last_speed, Some(3));
    let mut lone = DynamicScaler::new(1, 0, 0);
    lone.last_speed = Some(5);
    assert_eq!(
        lone.update(1, false, SEC, SpeedReading { speed: 1, improved: false }),
        None
    );
    assert_eq!(lone.current_worker_count, 1);
}

#[test]
fn segments_are_asked_for_by_their_range() {
    let segment = Segment { index: 3, start: 9, end: 11 };
    assert_eq!(range_header(&segment), "bytes=9-11");
    assert!(accept_range_response(&segment, 206, None, None, None, None).is_ok());
    let error = accept_range_response(&segment, 429, Some(b"4"), None, None, None).unwrap_err();
    assert!(matches!(error, DlError::RateLimited { retry_after: Some(4), .. }));
    let error = accept_range_response(&segment, 200, None, None, None, None).unwrap_err();
    assert_eq!(
        error.to_text(),
        "无效的 HTTP 响应：range request for segment 3 返回了 200 OK"
    );
}

#[test]
fn segment_has_to_be_filled_exactly() {
    let segment = Segment { index: 3, start: 9, end: 11 };
    let mut transfer = SegmentTransfer::new(segment);
    assert!(transfer.take_in(2).is_ok());
    assert_eq!(
        transfer.finish().unwrap_err().to_text(),
        "无效的 HTTP 响应：分段 3 写入 2 字节，预期为 3"
    );
    assert_eq!(
        transfer.take_in(2).unwrap_err().to_text(),
        "无效的 HTTP 响应：分段 3 超出预期长度 3"
    );
    assert!(transfer.take_in(1).is_ok());
    assert!(transfer.finish().is_ok());
}

#[test]
fn reports_come_after_every_thirty_second_piece_and_not_too_often() {
    let mut meter = ReportMeter::new(0);
    let early: Vec<bool> = (0..32).map(|_| meter.count(99_999_999)).collect();
    assert!(early.iter().all(|&report| !report));
    let late: Vec<bool> = (0..32).map(|_| meter.count(100_000_000)).collect();
    assert_eq!(late.iter().filter(|&&report| report).count(), 1);
    assert!(late[31]);
    assert_eq!(meter.last_report, 100_000_000);
}

#[test]
fn single_stream_asks_for_the_rest() {
    assert_eq!(rest_header(5, true), Some("bytes=5-".to_string()));
    assert_eq!(rest_header(0, true), None);
    assert_eq!(rest_header(5, false), None);
    let accepted = |start: u64, ranges: bool, status: u16| {
        accept_single_response(start, ranges, status, None, None, None, None).is_ok()
    };
    assert!(accepted(5, true, 206));
    assert!(accepted(5, true, 200));
    assert!(accepted(0, true, 206));
    assert!(accepted(0, false, 204));
    assert!(!accepted(5, false, 206));
    assert!(!accepted(5, true, 204));
    assert!(!accepted(0, true, 416));
    let error = accept_single_response(0, true, 500, None, None, None, None).unwrap_err();
    assert_eq!(
        error.to_text(),
        "服务器错误：GET 返回了 500 Internal Server Error"
    );
}

#[test]
fn single_stream_counts_from_where_it_goes_on() {
    let begin = |status: u16, known: Option<u64>| {
        SingleTransfer::begin(
            "u".to_string(),
            "o".to_string(),
            100,
            status,
            known,
            Some(50),
            0,
        )
    };
    let mut resumed = begin(206, None);
    assert_eq!(resumed.total_size, Some(150));
    assert!(!resumed.wrote(50, 1));
    let progress = resumed.progress(DownloadPhase::Downloading);
    assert_eq!(progress.active_workers, 1);
    assert_eq!(progress.downloaded_bytes, 150);
    assert_eq!(resumed.progress(DownloadPhase::Complete).active_workers, 0);
    let summary = resumed.summary();
    assert!(summary.resumed);
    assert_eq!(summary.total_bytes, 150);

    let afresh = begin(200, Some(70));
    assert_eq!(afresh.downloaded, 0);
    assert_eq!(afresh.total_size, Some(70));
    assert!(!afresh.summary().resumed);
}

#[test]
fn addresses_agree_but_for_query_and_credentials() {
    assert!(urls_are_compatible(
        "https://host/a?token=1#x",
        "https://user:pw@host:443/a?token=2"
    ));
    assert!(!urls_are_compatible("https://host/a", "https://host/b"));
    assert!(!urls_are_compatible("http://host/a", "https://host/a"));
    assert!(!urls_are_compatible("https://host:8080/a", "https://host/a"));
    assert!(urls_are_compatible("magnet:x", "magnet:x"));
    assert!(!urls_are_compatible("magnet:x", "magnet:y"));
    assert!(is_http_or_keys_and_tokens_stripped("http://a"));
    assert!(!is_http_or_keys_and_tokens_stripped("ftp://a"));
}

#[test]
fn validators_disagree_only_where_both_are_known() {
    assert!(weak_validator_matches(Some("a"), Some("a")));
    assert!(!weak_validator_matches(Some("a"), Some("b")));
    assert!(weak_validator_matches(None, Some("b")));
    assert!(weak_validator_matches(Some("a"), None));
    assert!(weak_validator_matches(None, None));
}
