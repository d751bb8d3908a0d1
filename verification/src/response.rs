//! Response assembly: the per-request pipeline from configuration, method,
//! headers and resolved target to a concrete response plan. The
//! surrounding application only executes the plan (opens, seeks, streams),
//! it decides nothing.

use vstd::prelude::*;
use vstd::string::StringExecFns;

use crate::compress::{Coding, listing_encoding, negotiate_file_encoding, negotiate_listing_encoding,
    negotiated_encoding};
use crate::errors::HttpError;
use crate::listing::{find_index_file, listing_link, listing_link_chars, listing_page_chars,
    render_listing_page, sort_header, sort_header_chars, toggle_chars, toggle_label};
use crate::range::{ByteRangeSpec, ByteSlice, RangeHeader, range_error_msg, resolve_byte_range,
    resolved_range};
use crate::resolver::{resolve_path_segments, resolved_path, seq_views};
use crate::sort::{DirEntry, SortField, SortOrder, parse_sort_field, parse_sort_order, sort_entries,
    sort_field_of, sort_order_of, sorted_entries};
use crate::validators::{EntityTag, IfMatch, IfRange, ModTime, check_if_match, check_if_range,
    check_not_modified, etag_chars, etag_for, if_match_passes, if_range_honors, not_modified_since};

verus! {

/// The immutable per-process configuration the core works from.
#[derive(Clone, Debug)]
pub struct ServerConfig {
    /// Serve `index.html` / `index.htm` instead of a listing.
    pub index: bool,
    /// Accept multipart POST uploads.
    pub upload: bool,
    /// Emit and honor cache validators.
    pub cache: bool,
    /// Honor `Range` requests.
    pub range: bool,
    /// Offer and honor listing sort parameters.
    pub sort: bool,
    /// Compressible path suffixes (`.js`, ...), or `None` when compression
    /// is off.
    pub compress: Option<Vec<String>>,
}

/// The request method, as far as the core distinguishes it.
#[derive(Clone, Copy, PartialEq, Eq, Structural, Debug)]
pub enum Method {
    Get,
    Head,
    Post,
    Other,
}

/// The request headers the core reads.
#[derive(Clone, Debug)]
pub struct RequestHeaders {
    pub range: Option<RangeHeader>,
    pub if_match: Option<IfMatch>,
    pub if_range: Option<IfRange>,
    /// `If-Modified-Since`, as seconds since the Unix epoch.
    pub if_modified_since: Option<i64>,
    pub accept_encoding: Option<Vec<Coding>>,
}

/// A regular file's metadata, as the filesystem reported it.
#[derive(Clone, Copy, PartialEq, Eq, Structural, Debug)]
pub struct FileMeta {
    pub len: u64,
    pub modified: ModTime,
}

/// The `Content-Range` header of a partial response: `length` bytes from
/// `offset`, out of `total`.
#[derive(Clone, Copy, PartialEq, Eq, Structural, Debug)]
pub struct ContentRange {
    pub offset: u64,
    pub length: u64,
    pub total: u64,
}

/// The cache headers of a cacheable response.
#[derive(Clone, Debug)]
pub struct CacheHeaders {
    /// The weak ETag text (without quotes).
    pub etag: String,
    /// The `Last-Modified` instant, seconds since the Unix epoch.
    pub last_modified_secs: i64,
    /// The `Cache-Control: public, max-age=...` lifetime.
    pub max_age: u32,
}

/// How the `Content-Type` header is to be filled in.
#[derive(Clone, Copy, PartialEq, Eq, Structural, Debug)]
pub enum ContentTypePlan {
    /// No `Content-Type` at all.
    Unset,
    /// `text/html`.
    Html,
    /// Look the type up from the file path's extension.
    FromPath,
}

/// What the response body is.
#[derive(Debug)]
pub enum BodyPlan {
    Empty,
    /// Stream the whole file.
    WholeFile,
    /// Stream `length` bytes of the file from `offset`.
    FileSlice(ByteSlice),
    /// The rendered document.
    Html(String),
    /// No content: send the client back to the request's own URL.
    RedirectToRequestUrl,
}

/// A fully decided response, ready to be written out.
#[derive(Debug)]
pub struct ResponsePlan {
    pub status: u16,
    pub body: BodyPlan,
    pub content_length: Option<u64>,
    pub content_range: Option<ContentRange>,
    pub content_type: ContentTypePlan,
    pub content_encoding: Option<Coding>,
    /// Whether to announce `Accept-Ranges: bytes`.
    pub accept_ranges: bool,
    pub cache: Option<CacheHeaders>,
}

/// The current weak ETag text of a file.
pub open spec fn etag_of(meta: FileMeta) -> Seq<char> {
    etag_chars(meta.len, meta.modified)
}

/// The range header that survives `If-Range`: a failed test silently
/// discards the range.
pub open spec fn effective_range(hdrs: RequestHeaders, meta: FileMeta) -> Option<RangeHeader> {
    if if_range_honors(hdrs.if_range, etag_of(meta), meta.modified) {
        hdrs.range
    } else {
        None
    }
}

/// How a file request is decided.
#[derive(Clone, Copy, PartialEq, Eq, Structural, Debug)]
pub enum FileOutcome {
    /// A ranged request whose `If-Match` precondition failed: 416.
    EtagMismatch,
    /// `If-Modified-Since` is satisfied: 304, nothing else.
    NotModified,
    /// A range in an unknown unit: 416.
    BadUnit,
    /// A `bytes=` header with no range in it: 416.
    EmptyRange,
    /// A first range that does not fit the file: 416.
    Unsatisfiable,
    /// A satisfiable first range: 206 with a body slice.
    Partial,
    /// An ordinary full response (body only for GET).
    Full,
}

/// The decision for a file request, in evaluation order: the `If-Match`
/// precondition (only on ranged GETs with range support on), then
/// `If-Modified-Since`, then `If-Range`, then the range itself.
pub open spec fn file_outcome(
    cfg: ServerConfig,
    method: Method,
    hdrs: RequestHeaders,
    meta: FileMeta,
) -> FileOutcome {
    if method is Get && cfg.range && hdrs.range is Some && !if_match_passes(
        hdrs.if_match,
        true,
        etag_of(meta),
    ) {
        FileOutcome::EtagMismatch
    } else if cfg.cache && not_modified_since(hdrs.if_modified_since, meta.modified) {
        FileOutcome::NotModified
    } else if method is Get && cfg.range {
        match effective_range(hdrs, meta) {
            Some(RangeHeader::Bytes(rs)) => {
                if rs@.len() == 0 {
                    FileOutcome::EmptyRange
                } else {
                    match resolved_range(rs@[0], meta.len) {
                        None => FileOutcome::Unsatisfiable,
                        Some(_) => FileOutcome::Partial,
                    }
                }
            },
            Some(RangeHeader::Unsupported) => FileOutcome::BadUnit,
            None => FileOutcome::Full,
        }
    } else {
        FileOutcome::Full
    }
}

/// The first byte range of the surviving range header (meaningful only
/// when the outcome is `Partial` or `Unsatisfiable`).
pub open spec fn first_range(hdrs: RequestHeaders, meta: FileMeta) -> ByteRangeSpec {
    match effective_range(hdrs, meta) {
        Some(RangeHeader::Bytes(rs)) => rs@[0],
        _ => ByteRangeSpec::AllFrom(0),
    }
}

/// The cache headers a plan must carry: the weak ETag, the modification
/// instant, and a five-minute public lifetime — exactly when caching is
/// configured.
pub open spec fn cache_headers_ok(p: ResponsePlan, cfg: ServerConfig, meta: FileMeta) -> bool {
    &&& cfg.cache ==> (p.cache matches Some(c) && c.etag@ == etag_of(meta)
        && c.last_modified_secs == meta.modified.secs && c.max_age == 300)
    &&& !cfg.cache ==> p.cache is None
}

/// The body and length of a full (non-range) response, by method: GET
/// streams the file, HEAD sends the same headers with no body (type and
/// length exactly as a GET would emit them), anything else is a bodyless
/// 200.
pub open spec fn full_body_ok(p: ResponsePlan, method: Method, meta: FileMeta) -> bool {
    match method {
        Method::Get => p.body is WholeFile && p.content_length == Some(meta.len)
            && p.content_type is FromPath,
        Method::Head => p.body is Empty && p.content_length == Some(meta.len)
            && p.content_type is FromPath,
        _ => p.body is Empty && p.content_length is None && p.content_type is Unset,
    }
}

/// Builds the 304 Not Modified response: a bare status, nothing else.
fn not_modified_plan() -> (p: ResponsePlan)
    ensures
        p.status == 304,
        p.body is Empty,
        p.content_length is None,
        p.content_range is None,
        p.content_type is Unset,
        p.content_encoding is None,
        !p.accept_ranges,
        p.cache is None,
{
    ResponsePlan {
        status: 304,
        body: BodyPlan::Empty,
        content_length: None,
        content_range: None,
        content_type: ContentTypePlan::Unset,
        content_encoding: None,
        accept_ranges: false,
        cache: None,
    }
}

/// Decides a file request: evaluates the conditional headers, resolves the
/// byte range, negotiates compression, and attaches the cache validators.
///
/// `name` is the decoded request path, used for the compressible-suffix
/// match.
pub fn send_file_plan(
    cfg: &ServerConfig,
    method: &Method,
    hdrs: &RequestHeaders,
    meta: FileMeta,
    name: &str,
) -> (res: Result<ResponsePlan, HttpError>)
    ensures
        file_outcome(*cfg, *method, *hdrs, meta) is EtagMismatch ==> (res matches Err(e)
            && e matches HttpError::RangeNotSatisfiable(m) && m@ == "Etag not matched"@),
        file_outcome(*cfg, *method, *hdrs, meta) is BadUnit ==> (res matches Err(e) && e matches
            HttpError::RangeNotSatisfiable(m) && m@ == "Invalid range type"@),
        file_outcome(*cfg, *method, *hdrs, meta) is EmptyRange ==> (res matches Err(e) && e matches
            HttpError::RangeNotSatisfiable(m) && m@ == "Empty range set"@),
        file_outcome(*cfg, *method, *hdrs, meta) is Unsatisfiable ==> (res matches Err(e)
            && e matches HttpError::RangeNotSatisfiable(m) && m@ == range_error_msg(
            first_range(*hdrs, meta),
            meta.len,
        )),
        file_outcome(*cfg, *method, *hdrs, meta) is NotModified ==> (res matches Ok(p) && p.status
            == 304 && p.body is Empty && p.content_length is None && p.content_type is Unset
            && p.content_encoding is None && p.cache is None && !p.accept_ranges
            && p.content_range is None),
        file_outcome(*cfg, *method, *hdrs, meta) is Full ==> (res matches Ok(p) && p.status == 200
            && full_body_ok(p, *method, meta) && p.content_range is None && p.accept_ranges
            == cfg.range && p.content_encoding == negotiated_encoding(
            cfg.compress,
            name@,
            false,
            hdrs.accept_encoding,
        ) && cache_headers_ok(p, *cfg, meta)),
        file_outcome(*cfg, *method, *hdrs, meta) is Partial ==> (res matches Ok(p) && p.status
            == 206 && (p.body matches BodyPlan::FileSlice(sl) && resolved_range(
            first_range(*hdrs, meta),
            meta.len,
        ) == Some((sl.offset as int, sl.length as int)) && p.content_length == Some(sl.length)
            && p.content_range == Some(
            ContentRange { offset: sl.offset, length: sl.length, total: meta.len },
        )) && p.content_type is FromPath && p.content_encoding is None && p.accept_ranges
            == cfg.range && cache_headers_ok(p, *cfg, meta)),
        res matches Ok(p) ==> (p.status == 206 ==> p.content_encoding is None),
{
    let etag_str = etag_for(meta.len, meta.modified);
    let etag = EntityTag { weak: true, tag: etag_str };

    // If-Match precondition, checked only for a ranged GET with range
    // support on.
    if matches!(method, Method::Get) && cfg.range && hdrs.range.is_some() {
        if !check_if_match(&hdrs.if_match, &etag) {
            return Err(HttpError::RangeNotSatisfiable(String::from_str("Etag not matched")));
        }
    }
    // If-Modified-Since short-circuits everything else.
    if cfg.cache && check_not_modified(&hdrs.if_modified_since, &meta.modified) {
        return Ok(not_modified_plan());
    }

    let mut status: u16 = 200;
    let mut body = BodyPlan::Empty;
    let mut content_length: Option<u64> = None;
    let mut content_range: Option<ContentRange> = None;
    let mut content_type = ContentTypePlan::Unset;

    match method {
        Method::Head => {
            content_type = ContentTypePlan::FromPath;
            content_length = Some(meta.len);
        },
        Method::Get => {
            content_type = ContentTypePlan::FromPath;
            if cfg.range {
                let honored = check_if_range(&hdrs.if_range, &etag, &meta.modified);
                let no_range: Option<RangeHeader> = None;
                let eff: &Option<RangeHeader> = if honored {
                    &hdrs.range
                } else {
                    &no_range
                };
                match eff {
                    Some(RangeHeader::Bytes(ranges)) => {
                        if ranges.len() == 0 {
                            return Err(
                                HttpError::RangeNotSatisfiable(String::from_str("Empty range set")),
                            );
                        }
                        let r0 = ranges[0];
                        match resolve_byte_range(&r0, meta.len) {
                            Err(e) => {
                                return Err(e);
                            },
                            Ok(sl) => {
                                content_length = Some(sl.length);
                                content_range = Some(
                                    ContentRange {
                                        offset: sl.offset,
                                        length: sl.length,
                                        total: meta.len,
                                    },
                                );
                                body = BodyPlan::FileSlice(sl);
                                status = 206;
                            },
                        }
                    },
                    Some(RangeHeader::Unsupported) => {
                        return Err(
                            HttpError::RangeNotSatisfiable(String::from_str("Invalid range type")),
                        );
                    },
                    None => {
                        content_length = Some(meta.len);
                        body = BodyPlan::WholeFile;
                    },
                }
            } else {
                content_length = Some(meta.len);
                body = BodyPlan::WholeFile;
            }
        },
        _ => {},
    }

    let content_encoding = negotiate_file_encoding(
        &cfg.compress,
        name,
        status == 206,
        &hdrs.accept_encoding,
    );
    let cache = if cfg.cache {
        Some(
            CacheHeaders {
                etag: etag.tag.clone(),
                last_modified_secs: meta.modified.secs,
                max_age: 300,
            },
        )
    } else {
        None
    };
    Ok(
        ResponsePlan {
            status,
            body,
            content_length,
            content_range,
            content_type,
            content_encoding,
            accept_ranges: cfg.range,
            cache,
        },
    )
}

/// The view of an optional string.
pub open spec fn opt_view(o: Option<String>) -> Option<Seq<char>> {
    match o {
        Some(s) => Some(s@),
        None => None,
    }
}

/// The order value actually used: the `order` query value, or `desc` when
/// it is absent.
pub open spec fn order_used(order_q: Option<String>) -> Seq<char> {
    match order_q {
        Some(o) => o@,
        None => "desc"@,
    }
}

/// The sort-link header a listing carries: present exactly when sorting is
/// enabled, with each column's toggle computed from the current sort.
pub open spec fn sort_links_chars(
    cfg: ServerConfig,
    prefix: Seq<Seq<char>>,
    sort_q: Option<String>,
    order_q: Option<String>,
) -> Seq<char> {
    if cfg.sort {
        sort_header_chars(
            listing_link_chars(prefix),
            toggle_chars(opt_view(sort_q), "name"@, order_used(order_q)),
            toggle_chars(opt_view(sort_q), "modified"@, order_used(order_q)),
            toggle_chars(opt_view(sort_q), "size"@, order_used(order_q)),
        )
    } else {
        Seq::empty()
    }
}

/// Some entry bears exactly this name.
pub open spec fn has_entry_named(entries: Seq<DirEntry>, name: Seq<char>) -> bool {
    exists|i: int| 0 <= i < entries.len() && entries[i].name@ == name
}

/// Which automatic index page a listing short-circuits to: `index.html`
/// first, then `index.htm`, only when the index option is on.
pub open spec fn index_choice(cfg: ServerConfig, entries: Seq<DirEntry>) -> Option<Seq<char>> {
    if !cfg.index {
        None
    } else if has_entry_named(entries, "index.html"@) {
        Some("index.html"@)
    } else if has_entry_named(entries, "index.htm"@) {
        Some("index.htm"@)
    } else {
        None
    }
}

/// The fixed headers of a rendered listing: a plain 200 HTML document,
/// compressed exactly as the listing negotiation says.
pub open spec fn listing_plan_ok(
    p: ResponsePlan,
    cfg: ServerConfig,
    accept: Option<Vec<Coding>>,
) -> bool {
    &&& p.status == 200
    &&& p.content_type is Html
    &&& p.content_length is None
    &&& p.content_range is None
    &&& !p.accept_ranges
    &&& p.cache is None
    &&& p.content_encoding == listing_encoding(cfg.compress, accept)
}

/// The rendered body of a sorted listing: some ordering of the entries
/// that the requested comparator sorts, carrying the same entries as a
/// multiset. (Vacuous when the sort parameters do not parse; those cases
/// error out instead.)
pub open spec fn sorted_listing_body_ok(
    b: Seq<char>,
    cfg: ServerConfig,
    prefix: Seq<Seq<char>>,
    entries: Seq<DirEntry>,
    sort_q: Option<String>,
    order_q: Option<String>,
) -> bool {
    match opt_view(sort_q) {
        None => true,
        Some(sv) => match sort_field_of(sv) {
            None => true,
            Some(f) => match sort_order_of(order_used(order_q)) {
                None => true,
                Some(o) => exists|es: Seq<DirEntry>|
                    es.to_multiset() == entries.to_multiset() && sorted_entries(es, f, o) && b
                        == listing_page_chars(
                        prefix,
                        es,
                        cfg.upload,
                        sort_links_chars(cfg, prefix, sort_q, order_q),
                    ),
            },
        },
    }
}

/// What serving a directory amounts to: delegate to an index file, or send
/// a rendered page.
#[derive(Debug)]
pub enum ListingAction {
    /// Serve this file of the directory instead of any listing.
    Index(String),
    /// Send this response.
    Page(ResponsePlan),
}

/// Decides a directory request: index-page short-circuit, sort-parameter
/// validation (unknown values are a 400, never a silent default), sorting,
/// rendering, and compression negotiation.
pub fn list_directory_plan(
    cfg: &ServerConfig,
    prefix: &Vec<String>,
    entries: Vec<DirEntry>,
    sort_q: &Option<String>,
    order_q: &Option<String>,
    accept: &Option<Vec<Coding>>,
) -> (res: Result<ListingAction, HttpError>)
    ensures
        index_choice(*cfg, entries@) matches Some(n) ==> (res matches Ok(
            ListingAction::Index(f),
        ) && f@ == n),
        (index_choice(*cfg, entries@) is None && cfg.sort && (opt_view(*sort_q) matches Some(sv)
            && sort_field_of(sv) is None)) ==> (res matches Err(e) && e matches
            HttpError::BadRequest(m) && m@ == "Unknown sort field: "@ + opt_view(
            *sort_q,
        ).unwrap()),
        (index_choice(*cfg, entries@) is None && cfg.sort && (opt_view(*sort_q) matches Some(sv)
            && sort_field_of(sv) is Some) && sort_order_of(order_used(*order_q)) is None) ==> (
        res matches Err(e) && e matches HttpError::BadRequest(m) && m@ == "Unknown sort order: "@
            + order_used(*order_q)),
        (index_choice(*cfg, entries@) is None && (!cfg.sort || *sort_q is None)) ==> (res matches Ok(
            ListingAction::Page(p),
        ) && listing_plan_ok(p, *cfg, *accept) && (p.body matches BodyPlan::Html(b) && b@
            == listing_page_chars(
            seq_views(prefix@),
            entries@,
            cfg.upload,
            sort_links_chars(*cfg, seq_views(prefix@), *sort_q, *order_q),
        ))),
        (index_choice(*cfg, entries@) is None && cfg.sort && *sort_q is Some && (opt_view(*sort_q)
            matches Some(sv) && sort_field_of(sv) is Some) && sort_order_of(order_used(*order_q))
            is Some) ==> (res matches Ok(ListingAction::Page(p)) && listing_plan_ok(
            p,
            *cfg,
            *accept,
        ) && (p.body matches BodyPlan::Html(b) && sorted_listing_body_ok(
            b@,
            *cfg,
            seq_views(prefix@),
            entries@,
            *sort_q,
            *order_q,
        ))),
{
    let ghost orig = entries@;
    let mut entries = entries;
    if cfg.index {
        match find_index_file(&entries) {
            Some(n) => {
                return Ok(ListingAction::Index(String::from_str(n)));
            },
            None => {},
        }
    }
    let order_str: &str = match order_q {
        Some(o) => o.as_str(),
        None => "desc",
    };
    let mut did_sort = false;
    let ghost mut used_field = SortField::Name;
    let ghost mut used_order = SortOrder::Asc;
    if cfg.sort {
        match sort_q {
            Some(s) => {
                let f = match parse_sort_field(s.as_str()) {
                    Ok(f) => f,
                    Err(e) => {
                        return Err(e);
                    },
                };
                let o = match parse_sort_order(order_str) {
                    Ok(o) => o,
                    Err(e) => {
                        return Err(e);
                    },
                };
                sort_entries(&mut entries, f, o);
                did_sort = true;
                proof {
                    used_field = f;
                    used_order = o;
                }
            },
            None => {},
        }
    }
    let sort_links: String = if cfg.sort {
        let link = listing_link(prefix);
        let no = toggle_label(sort_q, "name", order_str);
        let mo = toggle_label(sort_q, "modified", order_str);
        let so = toggle_label(sort_q, "size", order_str);
        sort_header(link.as_str(), no, mo, so)
    } else {
        String::new()
    };
    proof {
        assert(sort_links@ == sort_links_chars(*cfg, seq_views(prefix@), *sort_q, *order_q));
    }
    let page = render_listing_page(prefix, &entries, cfg.upload, sort_links.as_str());
    proof {
        if did_sort {
            assert(entries@.to_multiset() == orig.to_multiset() && sorted_entries(
                entries@,
                used_field,
                used_order,
            ) && page@ == listing_page_chars(
                seq_views(prefix@),
                entries@,
                cfg.upload,
                sort_links_chars(*cfg, seq_views(prefix@), *sort_q, *order_q),
            ));
        }
    }
    let plan = ResponsePlan {
        status: 200,
        body: BodyPlan::Html(page),
        content_length: None,
        content_range: None,
        content_type: ContentTypePlan::Html,
        content_encoding: negotiate_listing_encoding(&cfg.compress, accept),
        accept_ranges: false,
        cache: None,
    };
    Ok(ListingAction::Page(plan))
}

/// What a routed request asks the caller to do next.
#[derive(Debug)]
pub enum Route {
    /// A POST with uploads enabled: decode the multipart body and save it
    /// under these decoded segments.
    Upload(Vec<String>),
    /// Classify the path under these decoded segments and serve it.
    Serve(Vec<String>),
}

/// The first routing decision of every request: decode the path, then
/// divert enabled POST uploads; everything else is served.
pub fn route_request(cfg: &ServerConfig, method: &Method, raw: &Vec<String>) -> (res: Result<
    Route,
    HttpError,
>)
    ensures
        resolved_path(seq_views(raw@)) is None ==> (res matches Err(e) && e matches
            HttpError::BadRequest(_)),
        resolved_path(seq_views(raw@)) matches Some(sv) ==> ((cfg.upload && *method is Post) ==> (
        res matches Ok(r) && r matches Route::Upload(v) && seq_views(v@) == sv)),
        resolved_path(seq_views(raw@)) matches Some(sv) ==> (!(cfg.upload && *method is Post) ==> (
        res matches Ok(r) && r matches Route::Serve(v) && seq_views(v@) == sv)),
{
    let segs = match resolve_path_segments(raw) {
        Ok(v) => v,
        Err(e) => {
            return Err(e);
        },
    };
    if cfg.upload && matches!(method, Method::Post) {
        Ok(Route::Upload(segs))
    } else {
        Ok(Route::Serve(segs))
    }
}

/// The response of a successful upload: 302 Found, sending the browser
/// back to the same URL so it re-renders the updated listing. Nothing
/// else is attached.
pub fn upload_success_plan() -> (p: ResponsePlan)
    ensures
        p.status == 302,
        p.body is RedirectToRequestUrl,
        p.content_length is None,
        p.content_range is None,
        p.content_type is Unset,
        p.content_encoding is None,
        !p.accept_ranges,
        p.cache is None,
{
    ResponsePlan {
        status: 302,
        body: BodyPlan::RedirectToRequestUrl,
        content_length: None,
        content_range: None,
        content_type: ContentTypePlan::Unset,
        content_encoding: None,
        accept_ranges: false,
        cache: None,
    }
}

/// `If-Modified-Since` at or after the modification time short-circuits to
/// 304 Not Modified — whatever range was asked for — as long as the
/// request's `If-Match` precondition (which is checked first) does not
/// fail.
pub proof fn lemma_not_modified_wins(
    cfg: ServerConfig,
    method: Method,
    hdrs: RequestHeaders,
    meta: FileMeta,
    d: i64,
)
    requires
        cfg.cache,
        hdrs.if_modified_since == Some(d),
        meta.modified.secs <= d,
        !(file_outcome(cfg, method, hdrs, meta) is EtagMismatch),
    ensures
        file_outcome(cfg, method, hdrs, meta) is NotModified,
{
}

} // verus!
