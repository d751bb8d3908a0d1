//! Directory-listing rendering: link encoding, the breadcrumb trail, the
//! size and date columns, and the assembled HTML page.

use vstd::prelude::*;
use vstd::string::StringExecFns;
use vstd::string::StrSliceExecFns;

use crate::fmt::{spec_dec, spec_dec_digit, u64_to_dec};
use crate::resolver::seq_views;
use crate::sort::DirEntry;
use crate::strutil::str_eq;
use crate::urlenc::{pct_encoded_of, percent_encode_segment};

verus! {

/// What chrono makes of a modification time: its UTC calendar form,
/// `%Y-%m-%d %H:%M:%S`.
pub uninterp spec fn date_label_of(secs: i64) -> Seq<char>;

/// Relies on chrono's `DateTime::from_timestamp` and its `%Y-%m-%d
/// %H:%M:%S` formatting: the rendered UTC calendar time, a function of the
/// seconds alone (empty for seconds outside chrono's range).
#[verifier::external_body]
pub(crate) fn format_mtime(secs: i64) -> (r: String)
    ensures
        r@ == date_label_of(secs),
{
    match chrono::DateTime::from_timestamp(secs, 0) {
        Some(dt) => dt.format("%Y-%m-%d %H:%M:%S").to_string(),
        None => String::new(),
    }
}

/// An integer part, a dot, and two truncated fraction digits, for a size
/// of `n` bytes shown in a unit of `d` bytes (`d` a power of ten, at least
/// one hundred).
pub open spec fn scaled_chars(n: u64, d: u64) -> Seq<char> {
    spec_dec((n / d) as int) + "."@ + seq![
        spec_dec_digit(((n % d) / (d / 100)) as int / 10),
        spec_dec_digit(((n % d) / (d / 100)) as int % 10),
    ]
}

/// The size column of one entry: `-` for a directory; for a file, whole
/// bytes below one kB, otherwise the size in the largest metric unit it
/// reaches, with two fraction digits (truncated).
pub open spec fn size_label_chars(n: u64, is_dir: bool) -> Seq<char> {
    if is_dir {
        "-"@
    } else if n < 1000 {
        spec_dec(n as int) + " B"@
    } else if n < 1000000 {
        scaled_chars(n, 1000) + " kB"@
    } else if n < 1000000000 {
        scaled_chars(n, 1000000) + " MB"@
    } else if n < 1000000000000 {
        scaled_chars(n, 1000000000) + " GB"@
    } else if n < 1000000000000000 {
        scaled_chars(n, 1000000000000) + " TB"@
    } else if n < 1000000000000000000 {
        scaled_chars(n, 1000000000000000) + " PB"@
    } else {
        scaled_chars(n, 1000000000000000000) + " EB"@
    }
}

/// Renders the two truncated fraction digits and unit suffix part.
fn append_scaled(s: &mut String, n: u64, d: u64)
    requires
        d >= 100,
        d % 100 == 0,
    ensures
        final(s)@ == old(s)@ + scaled_chars(n, d),
{
    s.append(u64_to_dec(n / d).as_str());
    s.append(".");
    let t: u64 = (n % d) / (d / 100);
    assert(t < 100) by (nonlinear_arith)
        requires
            d >= 100,
            d % 100 == 0,
            t == (n % d) / (d / 100),
    ;
    let mut digits = u64_to_dec(t / 10);
    digits.append(u64_to_dec(t % 10).as_str());
    s.append(digits.as_str());
    assert(final(s)@ =~= old(s)@ + scaled_chars(n, d));
}

/// Renders the size column of one entry.
pub fn size_label(n: u64, is_dir: bool) -> (r: String)
    ensures
        r@ == size_label_chars(n, is_dir),
{
    if is_dir {
        return String::from_str("-");
    }
    let mut s = String::new();
    if n < 1000 {
        s.append(u64_to_dec(n).as_str());
        s.append(" B");
    } else if n < 1000000 {
        append_scaled(&mut s, n, 1000);
        s.append(" kB");
    } else if n < 1000000000 {
        append_scaled(&mut s, n, 1000000);
        s.append(" MB");
    } else if n < 1000000000000 {
        append_scaled(&mut s, n, 1000000000);
        s.append(" GB");
    } else if n < 1000000000000000 {
        append_scaled(&mut s, n, 1000000000000);
        s.append(" TB");
    } else if n < 1000000000000000000 {
        append_scaled(&mut s, n, 1000000000000000);
        s.append(" PB");
    } else {
        append_scaled(&mut s, n, 1000000000000000000);
        s.append(" EB");
    }
    assert(s@ =~= size_label_chars(n, is_dir));
    s
}

/// The segments percent-encoded and joined with `/`.
pub open spec fn encoded_link_path(segs: Seq<Seq<char>>) -> Seq<char>
    decreases segs.len(),
{
    if segs.len() == 0 {
        Seq::empty()
    } else if segs.len() == 1 {
        pct_encoded_of(segs[0])
    } else {
        encoded_link_path(segs.drop_last()) + "/"@ + pct_encoded_of(segs.last())
    }
}

/// Percent-encodes the segments and joins them with `/`.
pub fn encode_link_path(segs: &Vec<String>) -> (r: String)
    ensures
        r@ == encoded_link_path(seq_views(segs@)),
{
    let ghost sv = seq_views(segs@);
    let mut s = String::new();
    let mut i: usize = 0;
    while i < segs.len()
        invariant
            0 <= i <= segs@.len(),
            sv == seq_views(segs@),
            sv.len() == segs@.len(),
            s@ == encoded_link_path(sv.take(i as int)),
        decreases segs@.len() - i,
    {
        proof {
            assert(sv.take(i + 1).drop_last() =~= sv.take(i as int));
            assert(sv.take(i + 1).last() == segs@[i as int]@);
        }
        if i > 0 {
            s.append("/");
        }
        s.append(percent_encode_segment(segs[i].as_str()).as_str());
        proof {
            if i == 0 {
                assert(s@ =~= encoded_link_path(sv.take(1)));
            }
        }
        i += 1;
    }
    proof {
        assert(sv.take(i as int) =~= sv);
    }
    s
}

/// The href of one listing entry: the path so far, the encoded name, and a
/// trailing slash for a directory.
pub open spec fn entry_link_chars(prefix: Seq<Seq<char>>, name: Seq<char>, is_dir: bool) -> Seq<
    char,
> {
    (if prefix.len() == 0 {
        pct_encoded_of(name)
    } else {
        encoded_link_path(prefix) + "/"@ + pct_encoded_of(name)
    }) + (if is_dir {
        "/"@
    } else {
        Seq::empty()
    })
}

/// Renders the href of one listing entry.
pub fn entry_link(prefix: &Vec<String>, name: &str, is_dir: bool) -> (r: String)
    ensures
        r@ == entry_link_chars(seq_views(prefix@), name@, is_dir),
{
    let mut s = encode_link_path(prefix);
    if prefix.len() > 0 {
        s.append("/");
    }
    s.append(percent_encode_segment(name).as_str());
    if is_dir {
        s.append("/");
    }
    assert(s@ =~= entry_link_chars(seq_views(prefix@), name@, is_dir));
    s
}

/// The href of the `[Up]` row: the parent listing, with a trailing slash
/// unless the parent is the root.
pub open spec fn up_link_chars(prefix: Seq<Seq<char>>) -> Seq<char> {
    if prefix.len() <= 1 {
        Seq::empty()
    } else {
        encoded_link_path(prefix.drop_last()) + "/"@
    }
}

/// Renders the href of the `[Up]` row.
pub fn up_link(prefix: &Vec<String>) -> (r: String)
    requires
        prefix@.len() > 0,
    ensures
        r@ == up_link_chars(seq_views(prefix@)),
{
    let ghost sv = seq_views(prefix@);
    if prefix.len() == 1 {
        String::new()
    } else {
        let mut parent: Vec<String> = Vec::new();
        let mut i: usize = 0;
        while i < prefix.len() - 1
            invariant
                0 <= i <= prefix@.len() - 1,
                sv == seq_views(prefix@),
                sv.len() == prefix@.len(),
                parent@.len() == i,
                forall|j: int| 0 <= j < i ==> parent@[j]@ == sv[j],
            decreases prefix@.len() - 1 - i,
        {
            parent.push(prefix[i].clone());
            i += 1;
        }
        proof {
            assert(seq_views(parent@) =~= sv.drop_last());
        }
        let mut s = encode_link_path(&parent);
        s.append("/");
        s
    }
}

/// The href of the sort-toggle links: the listing itself, with a trailing
/// slash unless it is the root.
pub open spec fn listing_link_chars(prefix: Seq<Seq<char>>) -> Seq<char> {
    if prefix.len() == 0 {
        Seq::empty()
    } else {
        encoded_link_path(prefix) + "/"@
    }
}

/// Renders the href of the sort-toggle links.
pub fn listing_link(prefix: &Vec<String>) -> (r: String)
    ensures
        r@ == listing_link_chars(seq_views(prefix@)),
{
    if prefix.len() == 0 {
        String::new()
    } else {
        let mut s = encode_link_path(prefix);
        s.append("/");
        s
    }
}

/// The root crumb of the breadcrumb trail.
pub open spec fn root_link_chars() -> Seq<char> {
    "<a href=\"/\"><strong>[Root]</strong></a>"@
}

/// One linked crumb: the ancestor listing at depth `i + 1`.
pub open spec fn crumb_chars(prefix: Seq<Seq<char>>, i: int) -> Seq<char> {
    "<a href=\"/"@ + encoded_link_path(prefix.take(i + 1)) + "/\"><strong>"@ + prefix[i]
        + "</strong></a>"@
}

/// The root crumb followed by the first `k` segments as links, separated
/// by ` / `.
pub open spec fn linked_crumbs(prefix: Seq<Seq<char>>, k: int) -> Seq<char>
    decreases k,
{
    if k <= 0 {
        root_link_chars()
    } else {
        linked_crumbs(prefix, k - 1) + " / "@ + crumb_chars(prefix, k - 1)
    }
}

/// The whole breadcrumb trail: every ancestor as a link, the current
/// directory as plain text.
pub open spec fn breadcrumb_chars(prefix: Seq<Seq<char>>) -> Seq<char> {
    if prefix.len() == 0 {
        root_link_chars()
    } else {
        linked_crumbs(prefix, prefix.len() - 1) + " / "@ + prefix.last()
    }
}

/// Renders the breadcrumb trail.
pub fn breadcrumb(prefix: &Vec<String>) -> (r: String)
    ensures
        r@ == breadcrumb_chars(seq_views(prefix@)),
{
    let ghost sv = seq_views(prefix@);
    let mut s = String::from_str("<a href=\"/\"><strong>[Root]</strong></a>");
    if prefix.len() == 0 {
        return s;
    }
    let mut enc = String::new();
    let mut i: usize = 0;
    proof {
        assert(enc@ =~= encoded_link_path(sv.take(0)));
    }
    while i < prefix.len() - 1
        invariant
            0 <= i <= prefix@.len() - 1,
            sv == seq_views(prefix@),
            sv.len() == prefix@.len(),
            enc@ == encoded_link_path(sv.take(i as int)),
            s@ == linked_crumbs(sv, i as int),
        decreases prefix@.len() - 1 - i,
    {
        proof {
            assert(sv.take(i + 1).drop_last() =~= sv.take(i as int));
            assert(sv.take(i + 1).last() == prefix@[i as int]@);
        }
        if i > 0 {
            enc.append("/");
        }
        enc.append(percent_encode_segment(prefix[i].as_str()).as_str());
        proof {
            if i == 0 {
                assert(enc@ =~= encoded_link_path(sv.take(1)));
            }
        }
        s.append(" / ");
        s.append("<a href=\"/");
        s.append(enc.as_str());
        s.append("/\"><strong>");
        s.append(prefix[i].as_str());
        s.append("</strong></a>");
        assert(s@ =~= linked_crumbs(sv, i + 1));
        i += 1;
    }
    s.append(" / ");
    s.append(prefix[prefix.len() - 1].as_str());
    assert(s@ =~= breadcrumb_chars(sv));
    s
}

/// The first row of the table: the `[Up]` link, or a filler row at the
/// root.
pub open spec fn up_row_chars(prefix: Seq<Seq<char>>) -> Seq<char> {
    if prefix.len() > 0 {
        "\n<tr>\n  <td><a href=\"/"@ + up_link_chars(prefix)
            + "\"><strong>[Up]</strong></a></td>\n  <td></td>\n  <td></td>\n</tr>\n"@
    } else {
        "<tr><td>&nbsp;</td></tr>"@
    }
}

/// One rendered entry row.
pub open spec fn entry_row_chars(prefix: Seq<Seq<char>>, e: DirEntry) -> Seq<char> {
    "\n<tr>\n  <td><a "@ + (if e.is_dir {
        "style=\"font-weight: bold;\""@
    } else {
        Seq::empty()
    }) + " href=\"/"@ + entry_link_chars(prefix, e.name@, e.is_dir) + "\">"@ + e.name@ + (
    if e.is_dir {
        "/"@
    } else {
        Seq::empty()
    }) + "</a></td>\n  <td style=\"color:#888;\">["@ + date_label_of(e.modified.secs)
        + "]</td>\n  <td><bold>"@ + size_label_chars(e.size, e.is_dir) + "</bold></td>\n</tr>\n"@
}

/// The entry rows in order, each preceded by a newline (the join
/// separator after the first row).
pub open spec fn entry_rows_chars(prefix: Seq<Seq<char>>, entries: Seq<DirEntry>) -> Seq<char>
    decreases entries.len(),
{
    if entries.len() == 0 {
        Seq::empty()
    } else {
        entry_rows_chars(prefix, entries.drop_last()) + "\n"@ + entry_row_chars(
            prefix,
            entries.last(),
        )
    }
}

/// The whole table body: the up row, then one row per entry.
pub open spec fn rows_chars(prefix: Seq<Seq<char>>, entries: Seq<DirEntry>) -> Seq<char> {
    up_row_chars(prefix) + entry_rows_chars(prefix, entries)
}

/// Renders one entry row.
fn entry_row(prefix: &Vec<String>, e: &DirEntry) -> (r: String)
    ensures
        r@ == entry_row_chars(seq_views(prefix@), *e),
{
    let mut s = String::from_str("\n<tr>\n  <td><a ");
    if e.is_dir {
        s.append("style=\"font-weight: bold;\"");
    }
    s.append(" href=\"/");
    s.append(entry_link(prefix, e.name.as_str(), e.is_dir).as_str());
    s.append("\">");
    s.append(e.name.as_str());
    if e.is_dir {
        s.append("/");
    }
    s.append("</a></td>\n  <td style=\"color:#888;\">[");
    s.append(format_mtime(e.modified.secs).as_str());
    s.append("]</td>\n  <td><bold>");
    s.append(size_label(e.size, e.is_dir).as_str());
    s.append("</bold></td>\n</tr>\n");
    assert(s@ =~= entry_row_chars(seq_views(prefix@), *e));
    s
}

/// Renders the table body.
pub fn render_rows(prefix: &Vec<String>, entries: &Vec<DirEntry>) -> (r: String)
    ensures
        r@ == rows_chars(seq_views(prefix@), entries@),
{
    let ghost sv = seq_views(prefix@);
    let mut s = if prefix.len() > 0 {
        let mut t = String::from_str("\n<tr>\n  <td><a href=\"/");
        t.append(up_link(prefix).as_str());
        t.append("\"><strong>[Up]</strong></a></td>\n  <td></td>\n  <td></td>\n</tr>\n");
        t
    } else {
        String::from_str("<tr><td>&nbsp;</td></tr>")
    };
    assert(s@ =~= up_row_chars(sv));
    let mut i: usize = 0;
    while i < entries.len()
        invariant
            0 <= i <= entries@.len(),
            sv == seq_views(prefix@),
            s@ == up_row_chars(sv) + entry_rows_chars(sv, entries@.take(i as int)),
        decreases entries@.len() - i,
    {
        proof {
            assert(entries@.take(i + 1).drop_last() =~= entries@.take(i as int));
            assert(entries@.take(i + 1).last() == entries@[i as int]);
        }
        s.append("\n");
        s.append(entry_row(prefix, &entries[i]).as_str());
        assert(s@ =~= up_row_chars(sv) + entry_rows_chars(sv, entries@.take(i + 1)));
        i += 1;
    }
    proof {
        assert(entries@.take(i as int) =~= entries@);
    }
    s
}

/// The sort-toggle label for one column: clicking a column the listing is
/// currently sorted by descending flips to ascending; everything else
/// links to descending.
pub open spec fn toggle_chars(sort_q: Option<Seq<char>>, field: Seq<char>, order: Seq<char>) -> Seq<
    char,
> {
    if sort_q == Some(field) && order == "desc"@ {
        "asc"@
    } else {
        "desc"@
    }
}

/// Renders the sort-toggle label for one column.
pub fn toggle_label(sort_q: &Option<String>, field: &str, order: &str) -> (r: &'static str)
    ensures
        r@ == toggle_chars(
            match sort_q {
                Some(s) => Some(s@),
                None => None,
            },
            field@,
            order@,
        ),
{
    match sort_q {
        Some(s) => {
            if str_eq(s.as_str(), field) && str_eq(order, "desc") {
                "asc"
            } else {
                "desc"
            }
        },
        None => "desc",
    }
}

/// The sort-link header rows of the table.
pub open spec fn sort_header_chars(
    link: Seq<char>,
    name_o: Seq<char>,
    mod_o: Seq<char>,
    size_o: Seq<char>,
) -> Seq<char> {
    "\n<tr>\n  <th><a href=\"/"@ + link + "?sort=name&order="@ + name_o
        + "\">Name</a></th>\n  <th><a href=\"/"@ + link + "?sort=modified&order="@ + mod_o
        + "\">Last modified</a></th>\n  <th><a href=\"/"@ + link + "?sort=size&order="@ + size_o
        + "\">Size</a></th>\n</tr>\n<tr><td style=\"border-top:1px dashed #BBB;\" colspan=\"5\"></td></tr>\n"@
}

/// Renders the sort-link header rows.
pub fn sort_header(link: &str, name_o: &str, mod_o: &str, size_o: &str) -> (r: String)
    ensures
        r@ == sort_header_chars(link@, name_o@, mod_o@, size_o@),
{
    let mut s = String::from_str("\n<tr>\n  <th><a href=\"/");
    s.append(link);
    s.append("?sort=name&order=");
    s.append(name_o);
    s.append("\">Name</a></th>\n  <th><a href=\"/");
    s.append(link);
    s.append("?sort=modified&order=");
    s.append(mod_o);
    s.append("\">Last modified</a></th>\n  <th><a href=\"/");
    s.append(link);
    s.append("?sort=size&order=");
    s.append(size_o);
    s.append(
        "\">Size</a></th>\n</tr>\n<tr><td style=\"border-top:1px dashed #BBB;\" colspan=\"5\"></td></tr>\n",
    );
    assert(s@ =~= sort_header_chars(link@, name_o@, mod_o@, size_o@));
    s
}

/// The upload form shown when uploads are enabled, posting back to the
/// listing itself.
pub open spec fn upload_form_chars(path: Seq<char>) -> Seq<char> {
    "\n<form style=\"margin-top:1em; margin-bottom:1em;\" action=\"/"@ + path
        + "\" method=\"POST\" enctype=\"multipart/form-data\">\n  <input type=\"file\" name=\"files\" accept=\"*\" multiple />\n  <input type=\"submit\" value=\"Upload\" />\n</form>\n"@
}

/// The whole listing document.
pub open spec fn listing_page_chars(
    prefix: Seq<Seq<char>>,
    entries: Seq<DirEntry>,
    upload: bool,
    sort_links: Seq<char>,
) -> Seq<char> {
    "<!DOCTYPE html>\n<html>\n<head>\n  <meta charset=\"utf-8\">\n  <style> a { text-decoration:none; } </style>\n</head>\n<body>\n  "@
        + (if upload {
        upload_form_chars(encoded_link_path(prefix))
    } else {
        Seq::empty()
    }) + "\n  <div>"@ + breadcrumb_chars(prefix) + "</div>\n  <hr />\n  <table>\n    "@ + sort_links
        + "\n    "@ + rows_chars(prefix, entries) + "\n  </table>\n</body>\n</html>\n"@
}

/// Renders the whole listing document: optional upload form, breadcrumb,
/// optional sort links, and one row per entry in the given order.
pub fn render_listing_page(
    prefix: &Vec<String>,
    entries: &Vec<DirEntry>,
    upload: bool,
    sort_links: &str,
) -> (r: String)
    ensures
        r@ == listing_page_chars(seq_views(prefix@), entries@, upload, sort_links@),
{
    let mut s = String::from_str(
        "<!DOCTYPE html>\n<html>\n<head>\n  <meta charset=\"utf-8\">\n  <style> a { text-decoration:none; } </style>\n</head>\n<body>\n  ",
    );
    if upload {
        s.append("\n<form style=\"margin-top:1em; margin-bottom:1em;\" action=\"/");
        s.append(encode_link_path(prefix).as_str());
        s.append(
            "\" method=\"POST\" enctype=\"multipart/form-data\">\n  <input type=\"file\" name=\"files\" accept=\"*\" multiple />\n  <input type=\"submit\" value=\"Upload\" />\n</form>\n",
        );
    }
    s.append("\n  <div>");
    s.append(breadcrumb(prefix).as_str());
    s.append("</div>\n  <hr />\n  <table>\n    ");
    s.append(sort_links);
    s.append("\n    ");
    s.append(render_rows(prefix, entries).as_str());
    s.append("\n  </table>\n</body>\n</html>\n");
    assert(s@ =~= listing_page_chars(seq_views(prefix@), entries@, upload, sort_links@));
    s
}

/// Whether some entry has exactly this name.
fn has_name(entries: &Vec<DirEntry>, name: &str) -> (r: bool)
    ensures
        r == exists|i: int| 0 <= i < entries@.len() && entries@[i].name@ == name@,
{
    let mut i: usize = 0;
    while i < entries.len()
        invariant
            0 <= i <= entries@.len(),
            forall|j: int| 0 <= j < i ==> entries@[j].name@ != name@,
        decreases entries@.len() - i,
    {
        if str_eq(entries[i].name.as_str(), name) {
            proof {
                let w = i as int;
                assert(0 <= w < entries@.len() && entries@[w].name@ == name@);
            }
            return true;
        }
        i += 1;
    }
    false
}

/// Looks for an automatic index page among the entries: `index.html`
/// wins, then `index.htm`; `None` when neither is present.
pub fn find_index_file(entries: &Vec<DirEntry>) -> (r: Option<&'static str>)
    ensures
        (exists|i: int| 0 <= i < entries@.len() && entries@[i].name@ == "index.html"@) ==> (
        r matches Some(n) && n@ == "index.html"@),
        (!(exists|i: int| 0 <= i < entries@.len() && entries@[i].name@ == "index.html"@) && (
        exists|i: int| 0 <= i < entries@.len() && entries@[i].name@ == "index.htm"@)) ==> (
        r matches Some(n) && n@ == "index.htm"@),
        (!(exists|i: int| 0 <= i < entries@.len() && entries@[i].name@ == "index.html"@) && !(
        exists|i: int| 0 <= i < entries@.len() && entries@[i].name@ == "index.htm"@)) ==> r is None,
{
    if has_name(entries, "index.html") {
        Some("index.html")
    } else if has_name(entries, "index.htm") {
        Some("index.htm")
    } else {
        None
    }
}

} // verus!
