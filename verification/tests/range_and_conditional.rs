use simple_http_server::errors::HttpError;
use simple_http_server::compress::Coding;
use simple_http_server::range::{resolve_byte_range, ByteRangeSpec, RangeHeader};
use simple_http_server::response::{
    send_file_plan, BodyPlan, ContentRange, ContentTypePlan, FileMeta, Method, RequestHeaders,
    ResponsePlan, ServerConfig,
};
use simple_http_server::validators::{etag_for, EntityTag, IfMatch, IfRange, ModTime};

fn plain_config() -> ServerConfig {
    ServerConfig { index: false, upload: false, cache: true, range: true, sort: true, compress: None }
}

fn no_headers() -> RequestHeaders {
    RequestHeaders {
        range: None,
        if_match: None,
        if_range: None,
        if_modified_since: None,
        accept_encoding: None,
    }
}

fn meta(len: u64, secs: i64) -> FileMeta {
    FileMeta { len, modified: ModTime { secs, nsecs: 0 } }
}

fn expect_plan(res: Result<ResponsePlan, HttpError>) -> ResponsePlan {
    match res {
        Ok(p) => p,
        Err(e) => panic!("expected a plan, got error {}", e.status()),
    }
}

#[test]
fn from_to_resolves() {
    let r = resolve_byte_range(&ByteRangeSpec::FromTo(0, 499), 1000).unwrap();
    assert_eq!(r.offset, 0);
    assert_eq!(r.length, 500);
}

#[test]
fn from_to_clamps_end() {
    let r = resolve_byte_range(&ByteRangeSpec::FromTo(500, 2000), 1000).unwrap();
    assert_eq!(r.offset, 500);
    assert_eq!(r.length, 500);
}

#[test]
fn from_to_inverted_is_416() {
    match resolve_byte_range(&ByteRangeSpec::FromTo(5, 2), 1000) {
        Err(e) => {
            assert_eq!(e.status(), 416);
            assert_eq!(e.message(), "Invalid range(x=5, y=2)");
        }
        Ok(_) => panic!("expected 416"),
    }
}

#[test]
fn from_to_past_end_is_416() {
    assert!(resolve_byte_range(&ByteRangeSpec::FromTo(1000, 1200), 1000).is_err());
}

#[test]
fn all_from_resolves() {
    let r = resolve_byte_range(&ByteRangeSpec::AllFrom(900), 1000).unwrap();
    assert_eq!(r.offset, 900);
    assert_eq!(r.length, 100);
}

#[test]
fn all_from_past_end_is_416() {
    match resolve_byte_range(&ByteRangeSpec::AllFrom(5000), 1000) {
        Err(e) => {
            assert_eq!(e.status(), 416);
            assert_eq!(e.message(), "Range::AllFrom to large (x=5000), Content-Length: 1000)");
        }
        Ok(_) => panic!("expected 416"),
    }
}

#[test]
fn last_clamps_to_whole_file() {
    let r = resolve_byte_range(&ByteRangeSpec::Last(5000), 1000).unwrap();
    assert_eq!(r.offset, 0);
    assert_eq!(r.length, 1000);
}

#[test]
fn last_takes_suffix() {
    let r = resolve_byte_range(&ByteRangeSpec::Last(100), 1000).unwrap();
    assert_eq!(r.offset, 900);
    assert_eq!(r.length, 100);
}

#[test]
fn suffix_range_gives_partial_content() {
    // A 1000-byte file asked for `bytes=900-` gives 206 with
    // `Content-Range: bytes 900-999/1000` and a 100-byte body.
    let mut hdrs = no_headers();
    hdrs.range = Some(RangeHeader::Bytes(vec![ByteRangeSpec::AllFrom(900)]));
    let p = expect_plan(send_file_plan(&plain_config(), &Method::Get, &hdrs, meta(1000, 1500), "f.bin"));
    assert_eq!(p.status, 206);
    assert_eq!(p.content_length, Some(100));
    assert_eq!(p.content_range, Some(ContentRange { offset: 900, length: 100, total: 1000 }));
    match p.body {
        BodyPlan::FileSlice(sl) => {
            assert_eq!(sl.offset, 900);
            assert_eq!(sl.length, 100);
        }
        _ => panic!("expected a file slice"),
    }
}

#[test]
fn suffix_range_past_end_is_416() {
    let mut hdrs = no_headers();
    hdrs.range = Some(RangeHeader::Bytes(vec![ByteRangeSpec::AllFrom(5000)]));
    match send_file_plan(&plain_config(), &Method::Get, &hdrs, meta(1000, 1500), "f.bin") {
        Err(e) => assert_eq!(e.status(), 416),
        Ok(_) => panic!("expected 416"),
    }
}

#[test]
fn empty_range_set_is_416() {
    let mut hdrs = no_headers();
    hdrs.range = Some(RangeHeader::Bytes(vec![]));
    match send_file_plan(&plain_config(), &Method::Get, &hdrs, meta(1000, 1500), "f.bin") {
        Err(e) => {
            assert_eq!(e.status(), 416);
            assert_eq!(e.message(), "Empty range set");
        }
        Ok(_) => panic!("expected 416"),
    }
}

#[test]
fn unknown_range_unit_is_416() {
    let mut hdrs = no_headers();
    hdrs.range = Some(RangeHeader::Unsupported);
    match send_file_plan(&plain_config(), &Method::Get, &hdrs, meta(1000, 1500), "f.bin") {
        Err(e) => {
            assert_eq!(e.status(), 416);
            assert_eq!(e.message(), "Invalid range type");
        }
        Ok(_) => panic!("expected 416"),
    }
}

#[test]
fn if_modified_since_later_date_gives_304() {
    let mut hdrs = no_headers();
    hdrs.if_modified_since = Some(2000);
    let p = expect_plan(send_file_plan(&plain_config(), &Method::Get, &hdrs, meta(1000, 1500), "f.bin"));
    assert_eq!(p.status, 304);
    assert!(matches!(p.body, BodyPlan::Empty));
    assert!(matches!(p.content_type, ContentTypePlan::Unset));
    assert_eq!(p.content_length, None);
    assert!(p.cache.is_none());
}

#[test]
fn if_modified_since_equal_date_gives_304() {
    let mut hdrs = no_headers();
    hdrs.if_modified_since = Some(1500);
    let p = expect_plan(send_file_plan(&plain_config(), &Method::Get, &hdrs, meta(1000, 1500), "f.bin"));
    assert_eq!(p.status, 304);
}

#[test]
fn if_modified_since_stale_date_serves_file() {
    let mut hdrs = no_headers();
    hdrs.if_modified_since = Some(1000);
    let p = expect_plan(send_file_plan(&plain_config(), &Method::Get, &hdrs, meta(1000, 1500), "f.bin"));
    assert_eq!(p.status, 200);
    assert!(matches!(p.body, BodyPlan::WholeFile));
    let cache = p.cache.expect("cache headers expected");
    assert_eq!(cache.etag, "3e8-5dc.0");
    assert_eq!(cache.last_modified_secs, 1500);
    assert_eq!(cache.max_age, 300);
}

#[test]
fn validators_are_idempotent() {
    // Two requests for the same unchanged resource carry the same ETag and
    // Last-Modified.
    let cfg = plain_config();
    let p1 = expect_plan(send_file_plan(&cfg, &Method::Get, &no_headers(), meta(1000, 1500), "f.bin"));
    let p2 = expect_plan(send_file_plan(&cfg, &Method::Get, &no_headers(), meta(1000, 1500), "f.bin"));
    let c1 = p1.cache.unwrap();
    let c2 = p2.cache.unwrap();
    assert_eq!(c1.etag, c2.etag);
    assert_eq!(c1.last_modified_secs, c2.last_modified_secs);
}

#[test]
fn etag_renders_hex_parts() {
    assert_eq!(etag_for(1000, ModTime { secs: 1500, nsecs: 0 }), "3e8-5dc.0");
    assert_eq!(etag_for(255, ModTime { secs: 0, nsecs: 16 }), "ff-0.10");
}

#[test]
fn etag_renders_negative_seconds_as_two_complement() {
    assert_eq!(etag_for(0, ModTime { secs: -1, nsecs: 0 }), "0-ffffffffffffffff.0");
}

#[test]
fn failed_if_match_on_range_is_416() {
    let mut hdrs = no_headers();
    hdrs.range = Some(RangeHeader::Bytes(vec![ByteRangeSpec::AllFrom(0)]));
    hdrs.if_match = Some(IfMatch::Items(vec![EntityTag { weak: false, tag: String::from("zzz") }]));
    match send_file_plan(&plain_config(), &Method::Get, &hdrs, meta(1000, 1500), "f.bin") {
        Err(e) => {
            assert_eq!(e.status(), 416);
            assert_eq!(e.message(), "Etag not matched");
        }
        Ok(_) => panic!("expected 416"),
    }
}

#[test]
fn if_match_star_lets_range_through() {
    let mut hdrs = no_headers();
    hdrs.range = Some(RangeHeader::Bytes(vec![ByteRangeSpec::AllFrom(0)]));
    hdrs.if_match = Some(IfMatch::Any);
    let p = expect_plan(send_file_plan(&plain_config(), &Method::Get, &hdrs, meta(1000, 1500), "f.bin"));
    assert_eq!(p.status, 206);
}

#[test]
fn if_range_tag_mismatch_discards_range() {
    let mut hdrs = no_headers();
    hdrs.range = Some(RangeHeader::Bytes(vec![ByteRangeSpec::AllFrom(900)]));
    hdrs.if_range = Some(IfRange::Tag(EntityTag { weak: true, tag: String::from("stale") }));
    let p = expect_plan(send_file_plan(&plain_config(), &Method::Get, &hdrs, meta(1000, 1500), "f.bin"));
    assert_eq!(p.status, 200);
    assert!(matches!(p.body, BodyPlan::WholeFile));
}

#[test]
fn if_range_matching_tag_honors_range() {
    let mut hdrs = no_headers();
    hdrs.range = Some(RangeHeader::Bytes(vec![ByteRangeSpec::AllFrom(900)]));
    hdrs.if_range = Some(IfRange::Tag(EntityTag { weak: true, tag: String::from("3e8-5dc.0") }));
    let p = expect_plan(send_file_plan(&plain_config(), &Method::Get, &hdrs, meta(1000, 1500), "f.bin"));
    assert_eq!(p.status, 206);
}

#[test]
fn if_range_past_date_discards_range() {
    let mut hdrs = no_headers();
    hdrs.range = Some(RangeHeader::Bytes(vec![ByteRangeSpec::AllFrom(900)]));
    hdrs.if_range = Some(IfRange::Date(1000));
    let mut cfg = plain_config();
    cfg.cache = false;
    let p = expect_plan(send_file_plan(&cfg, &Method::Get, &hdrs, meta(1000, 1500), "f.bin"));
    assert_eq!(p.status, 200);
}

#[test]
fn if_range_fresh_date_honors_range() {
    let mut hdrs = no_headers();
    hdrs.range = Some(RangeHeader::Bytes(vec![ByteRangeSpec::AllFrom(900)]));
    hdrs.if_range = Some(IfRange::Date(1500));
    let mut cfg = plain_config();
    cfg.cache = false;
    let p = expect_plan(send_file_plan(&cfg, &Method::Get, &hdrs, meta(1000, 1500), "f.bin"));
    assert_eq!(p.status, 206);
}

#[test]
fn head_sends_headers_only() {
    // HEAD emits Content-Type and Content-Length exactly as a GET would,
    // with no body.
    let p = expect_plan(send_file_plan(&plain_config(), &Method::Head, &no_headers(), meta(1000, 1500), "f.bin"));
    assert_eq!(p.status, 200);
    assert!(matches!(p.body, BodyPlan::Empty));
    assert_eq!(p.content_length, Some(1000));
    assert!(matches!(p.content_type, ContentTypePlan::FromPath));
}

#[test]
fn range_disabled_serves_whole_file() {
    let mut cfg = plain_config();
    cfg.range = false;
    let mut hdrs = no_headers();
    hdrs.range = Some(RangeHeader::Bytes(vec![ByteRangeSpec::AllFrom(900)]));
    let p = expect_plan(send_file_plan(&cfg, &Method::Get, &hdrs, meta(1000, 1500), "f.bin"));
    assert_eq!(p.status, 200);
    assert!(!p.accept_ranges);
    assert!(matches!(p.body, BodyPlan::WholeFile));
}

#[test]
fn compression_never_joins_partial_content() {
    let mut cfg = plain_config();
    cfg.compress = Some(vec![String::from(".bin")]);
    let mut hdrs = no_headers();
    hdrs.accept_encoding = Some(vec![Coding::Gzip]);
    hdrs.range = Some(RangeHeader::Bytes(vec![ByteRangeSpec::AllFrom(900)]));
    let p = expect_plan(send_file_plan(&cfg, &Method::Get, &hdrs, meta(1000, 1500), "f.bin"));
    assert_eq!(p.status, 206);
    assert_eq!(p.content_encoding, None);

    let mut full = no_headers();
    full.accept_encoding = Some(vec![Coding::Gzip]);
    let p2 = expect_plan(send_file_plan(&cfg, &Method::Get, &full, meta(1000, 1500), "f.bin"));
    assert_eq!(p2.status, 200);
    assert_eq!(p2.content_encoding, Some(Coding::Gzip));
}

#[test]
fn compression_takes_first_coding_in_client_order() {
    let mut cfg = plain_config();
    cfg.compress = Some(vec![String::from(".js")]);
    let mut hdrs = no_headers();
    hdrs.accept_encoding = Some(vec![Coding::Other, Coding::Deflate, Coding::Gzip]);
    let p = expect_plan(send_file_plan(&cfg, &Method::Get, &hdrs, meta(10, 1500), "app.js"));
    assert_eq!(p.content_encoding, Some(Coding::Deflate));
}

#[test]
fn compression_skips_unmatched_suffix() {
    let mut cfg = plain_config();
    cfg.compress = Some(vec![String::from(".js")]);
    let mut hdrs = no_headers();
    hdrs.accept_encoding = Some(vec![Coding::Gzip]);
    let p = expect_plan(send_file_plan(&cfg, &Method::Get, &hdrs, meta(10, 1500), "a.txt"));
    assert_eq!(p.content_encoding, None);
}
