use simple_http_server::compress::Coding;
use simple_http_server::errors::HttpError;
use simple_http_server::listing::{
    breadcrumb, encode_link_path, size_label, up_link,
};
use simple_http_server::response::{
    list_directory_plan, BodyPlan, ListingAction, ResponsePlan, ServerConfig,
};
use simple_http_server::sort::{sort_entries, DirEntry, SortField, SortOrder};
use simple_http_server::validators::ModTime;

fn listing_config() -> ServerConfig {
    ServerConfig { index: false, upload: false, cache: true, range: true, sort: true, compress: None }
}

fn entry(name: &str, is_dir: bool, size: u64, secs: i64) -> DirEntry {
    DirEntry { name: String::from(name), is_dir, size, modified: ModTime { secs, nsecs: 0 } }
}

fn sample_entries() -> Vec<DirEntry> {
    vec![
        entry("b.txt", false, 10, 300),
        entry("a", true, 0, 100),
        entry("c.txt", false, 5, 200),
    ]
}

fn page_of(res: Result<ListingAction, HttpError>) -> String {
    match res {
        Ok(ListingAction::Page(ResponsePlan { body: BodyPlan::Html(b), .. })) => b,
        Ok(ListingAction::Page(_)) => panic!("page without an HTML body"),
        Ok(ListingAction::Index(_)) => panic!("unexpected index short-circuit"),
        Err(e) => panic!("unexpected error {}", e.status()),
    }
}

#[test]
fn sort_by_size_ascending_puts_directories_first() {
    // Entries b.txt (10 B), a/ (directory), c.txt (5 B) under
    // `sort=size&order=asc` come out as a/, c.txt, b.txt.
    let mut v = sample_entries();
    sort_entries(&mut v, SortField::Size, SortOrder::Asc);
    let names: Vec<&str> = v.iter().map(|e| e.name.as_str()).collect();
    assert_eq!(names, vec!["a", "c.txt", "b.txt"]);
}

#[test]
fn sorted_listing_renders_in_sorted_order() {
    let body = page_of(list_directory_plan(
        &listing_config(),
        &Vec::new(),
        sample_entries(),
        &Some(String::from("size")),
        &Some(String::from("asc")),
        &None,
    ));
    let pa = body.find(">a/<").expect("directory row");
    let pc = body.find(">c.txt<").expect("small file row");
    let pb = body.find(">b.txt<").expect("large file row");
    assert!(pa < pc && pc < pb);
}

#[test]
fn directory_sorts_before_larger_file_under_size() {
    // The directory wins regardless of its numeric size.
    let mut v = vec![entry("tiny.txt", false, 1, 0), entry("huge", true, 999999, 0)];
    sort_entries(&mut v, SortField::Size, SortOrder::Asc);
    assert_eq!(v[0].name, "huge");
    assert_eq!(v[1].name, "tiny.txt");
}

#[test]
fn empty_root_listing_renders_exactly() {
    let mut cfg = listing_config();
    cfg.sort = false;
    let body = page_of(list_directory_plan(&cfg, &Vec::new(), Vec::new(), &None, &None, &None));
    assert_eq!(
        body,
        "<!DOCTYPE html>\n<html>\n<head>\n  <meta charset=\"utf-8\">\n  <style> a { text-decoration:none; } </style>\n</head>\n<body>\n  \n  <div><a href=\"/\"><strong>[Root]</strong></a></div>\n  <hr />\n  <table>\n    \n    <tr><td>&nbsp;</td></tr>\n  </table>\n</body>\n</html>\n"
    );
}

#[test]
fn file_row_renders_exactly() {
    let body = page_of(list_directory_plan(
        &listing_config(),
        &Vec::new(),
        vec![entry("f.txt", false, 1, 0)],
        &None,
        &None,
        &None,
    ));
    assert!(body.contains(
        "\n<tr>\n  <td><a  href=\"/f%2Etxt\">f.txt</a></td>\n  <td style=\"color:#888;\">[1970-01-01 00:00:00]</td>\n  <td><bold>1 B</bold></td>\n</tr>\n"
    ));
}

#[test]
fn unknown_sort_field_is_400() {
    match list_directory_plan(
        &listing_config(),
        &Vec::new(),
        sample_entries(),
        &Some(String::from("bogus")),
        &None,
        &None,
    ) {
        Err(e) => {
            assert_eq!(e.status(), 400);
            assert_eq!(e.message(), "Unknown sort field: bogus");
        }
        Ok(_) => panic!("expected 400"),
    }
}

#[test]
fn unknown_sort_order_is_400() {
    match list_directory_plan(
        &listing_config(),
        &Vec::new(),
        sample_entries(),
        &Some(String::from("name")),
        &Some(String::from("weird")),
        &None,
    ) {
        Err(e) => {
            assert_eq!(e.status(), 400);
            assert_eq!(e.message(), "Unknown sort order: weird");
        }
        Ok(_) => panic!("expected 400"),
    }
}

#[test]
fn sort_by_name_descending() {
    let mut v = sample_entries();
    sort_entries(&mut v, SortField::Name, SortOrder::Desc);
    let names: Vec<&str> = v.iter().map(|e| e.name.as_str()).collect();
    assert_eq!(names, vec!["c.txt", "b.txt", "a"]);
}

#[test]
fn sort_by_modified_ascending() {
    let mut v = sample_entries();
    sort_entries(&mut v, SortField::Modified, SortOrder::Asc);
    let names: Vec<&str> = v.iter().map(|e| e.name.as_str()).collect();
    assert_eq!(names, vec!["a", "c.txt", "b.txt"]);
}

#[test]
fn index_html_wins_over_index_htm() {
    let mut cfg = listing_config();
    cfg.index = true;
    let entries = vec![
        entry("index.htm", false, 1, 0),
        entry("index.html", false, 1, 0),
        entry("other.txt", false, 1, 0),
    ];
    match list_directory_plan(&cfg, &Vec::new(), entries, &None, &None, &None) {
        Ok(ListingAction::Index(name)) => assert_eq!(name, "index.html"),
        _ => panic!("expected the index short-circuit"),
    }
}

#[test]
fn index_htm_serves_when_html_absent() {
    let mut cfg = listing_config();
    cfg.index = true;
    let entries = vec![entry("index.htm", false, 1, 0)];
    match list_directory_plan(&cfg, &Vec::new(), entries, &None, &None, &None) {
        Ok(ListingAction::Index(name)) => assert_eq!(name, "index.htm"),
        _ => panic!("expected the index short-circuit"),
    }
}

#[test]
fn index_disabled_renders_listing() {
    let entries = vec![entry("index.html", false, 1, 0)];
    let body = page_of(list_directory_plan(
        &listing_config(),
        &Vec::new(),
        entries,
        &None,
        &None,
        &None,
    ));
    assert!(body.contains("index.html"));
}

#[test]
fn root_listing_has_filler_row_and_root_crumb() {
    let body = page_of(list_directory_plan(
        &listing_config(),
        &Vec::new(),
        Vec::new(),
        &None,
        &None,
        &None,
    ));
    assert!(body.contains("<tr><td>&nbsp;</td></tr>"));
    assert!(body.contains("<a href=\"/\"><strong>[Root]</strong></a>"));
    assert!(!body.contains("[Up]"));
    assert!(!body.contains("<form"));
}

#[test]
fn nested_listing_has_up_link_and_breadcrumb() {
    let prefix = vec![String::from("docs"), String::from("api")];
    let body = page_of(list_directory_plan(
        &listing_config(),
        &prefix,
        Vec::new(),
        &None,
        &None,
        &None,
    ));
    assert!(body.contains("<a href=\"/docs/\"><strong>[Up]</strong></a>"));
    assert!(body.contains("<a href=\"/docs/\"><strong>docs</strong></a>"));
    assert!(body.contains(" / api"));
}

#[test]
fn upload_form_appears_when_enabled() {
    let mut cfg = listing_config();
    cfg.upload = true;
    let body = page_of(list_directory_plan(&cfg, &Vec::new(), Vec::new(), &None, &None, &None));
    assert!(body.contains("method=\"POST\" enctype=\"multipart/form-data\""));
}

#[test]
fn listing_row_shows_formatted_date() {
    // The chrono-backed formatter must turn the epoch into its calendar
    // form, not echo the raw seconds.
    let body = page_of(list_directory_plan(
        &listing_config(),
        &Vec::new(),
        vec![entry("f.txt", false, 1, 0)],
        &None,
        &None,
        &None,
    ));
    assert!(body.contains("[1970-01-01 00:00:00]"));
}

#[test]
fn listing_compresses_as_gzip_when_accepted() {
    let mut cfg = listing_config();
    cfg.compress = Some(vec![String::from(".js")]);
    let res = list_directory_plan(
        &cfg,
        &Vec::new(),
        Vec::new(),
        &None,
        &None,
        &Some(vec![Coding::Deflate]),
    );
    match res {
        Ok(ListingAction::Page(p)) => assert_eq!(p.content_encoding, Some(Coding::Gzip)),
        _ => panic!("expected a page"),
    }
}

#[test]
fn listing_without_compression_configured_is_plain() {
    let res = list_directory_plan(
        &listing_config(),
        &Vec::new(),
        Vec::new(),
        &None,
        &None,
        &Some(vec![Coding::Gzip]),
    );
    match res {
        Ok(ListingAction::Page(p)) => {
            assert_eq!(p.content_encoding, None);
            assert_eq!(p.status, 200);
            assert!(p.cache.is_none());
        }
        _ => panic!("expected a page"),
    }
}

#[test]
fn sort_links_toggle_current_descending_column() {
    let body = page_of(list_directory_plan(
        &listing_config(),
        &Vec::new(),
        Vec::new(),
        &Some(String::from("name")),
        &Some(String::from("desc")),
        &None,
    ));
    assert!(body.contains("?sort=name&order=asc"));
    assert!(body.contains("?sort=modified&order=desc"));
    assert!(body.contains("?sort=size&order=desc"));
}

#[test]
fn size_label_formats_bytes_and_units() {
    assert_eq!(size_label(0, false), "0 B");
    assert_eq!(size_label(10, false), "10 B");
    assert_eq!(size_label(999, false), "999 B");
    assert_eq!(size_label(1024, false), "1.02 kB");
    assert_eq!(size_label(5000000, false), "5.00 MB");
    assert_eq!(size_label(0, true), "-");
}

#[test]
fn link_path_percent_encodes_segments() {
    // The percent-encoding wrapper must actually encode, not echo.
    let segs = vec![String::from("a b"), String::from("c")];
    assert_eq!(encode_link_path(&segs), "a%20b/c");
    let plain = vec![String::from("abc")];
    assert_eq!(encode_link_path(&plain), "abc");
}

#[test]
fn up_link_points_to_parent() {
    let two = vec![String::from("a"), String::from("b")];
    assert_eq!(up_link(&two), "a/");
    let one = vec![String::from("a")];
    assert_eq!(up_link(&one), "");
}

#[test]
fn breadcrumb_links_ancestors_only() {
    let prefix = vec![String::from("x"), String::from("y")];
    let trail = breadcrumb(&prefix);
    assert_eq!(
        trail,
        "<a href=\"/\"><strong>[Root]</strong></a> / <a href=\"/x/\"><strong>x</strong></a> / y"
    );
}
