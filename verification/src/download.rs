//! The decisions of a download: resuming, what to do with a fetched file, which links on a
//! source's pages lead to a file, and what to fetch from Google Play.

use vstd::prelude::*;

use crate::scrape::{
    attrs_view, byte_match_view, byte_matches_view, find_byte_captures, find_captures,
    html_select_attr, opt_bytes, opt_text, regex_byte_captures, regex_captures, select_attr,
    text_match_view, text_matches_view,
};
use crate::search::{apkpure_absolute, apkpure_absolute_url, dotted, opt_matches, slug_of};
use crate::text::{
    chars_of, contains_str, decimal, decimal_of, group_text, has_infix, has_prefix, has_suffix,
    push_all,
    push_str_chars, string_from, string_of,
};
use crate::util::{as_str, text_of};
use serde_json::{from_str, Value};

verus! {

// ---------------------------------------------------------------------------
// Resuming
// ---------------------------------------------------------------------------

/// The `Range` header that asks for the rest of a partly downloaded file of `existing` bytes;
/// none when nothing was downloaded yet.
pub open spec fn range_header_spec(existing: u64) -> Option<Seq<char>> {
    if existing > 0 {
        Some("bytes="@ + decimal(existing as nat) + "-"@)
    } else {
        None
    }
}

/// The `Range` header for a partial file of `existing` bytes.
pub fn range_header(existing: u64) -> (res: Option<String>)
    ensures
        match res {
            Some(h) => range_header_spec(existing) == Some(h@),
            None => range_header_spec(existing) is None,
        },
{
    if existing == 0 {
        return None;
    }
    let mut out: Vec<char> = Vec::new();
    push_str_chars(&mut out, "bytes=");
    let d = decimal_of(existing);
    push_all(&mut out, &d);
    push_str_chars(&mut out, "-");
    Some(string_of(&out))
}

/// The answer continues the partial file: status 206 (Partial Content) to a request that
/// asked for a range.
pub open spec fn resumes(status: u16, existing: u64) -> bool {
    status == 206 && existing > 0
}

/// Whether the server's answer continues the partial file, and the byte count to start from.
pub fn resume_state(status: u16, existing: u64) -> (res: (bool, u64))
    ensures
        res.0 == resumes(status, existing),
        res.1 == (if res.0 {
            existing
        } else {
            0
        }),
{
    if status == 206 && existing > 0 {
        (true, existing)
    } else {
        (false, 0)
    }
}

// ---------------------------------------------------------------------------
// A fetched file
// ---------------------------------------------------------------------------

/// Fewer bytes than this is an error page, not an APK.
pub const MIN_APK_BYTES: u64 = 50_000;

/// Whether a downloaded file of `size` bytes is large enough to be an APK.
pub fn big_enough(size: u64) -> (res: bool)
    ensures
        res == (size > MIN_APK_BYTES),
{
    size > MIN_APK_BYTES
}

/// The Python interpreter that runs the Google Play client: the virtual environment's when
/// it exists, else `python3` from the path.
pub fn python_for(venv_exists: bool) -> (res: &'static str)
    ensures
        res@ == (if venv_exists {
            crate::util::VENV_PYTHON@
        } else {
            "python3"@
        }),
{
    if venv_exists {
        crate::util::VENV_PYTHON
    } else {
        "python3"
    }
}

/// The two bundle formats that hold split APKs.
#[derive(Debug, PartialEq, Eq, Clone, Copy)]
pub enum BundleKind {
    Apkm,
    Xapk,
}

/// What to do with a file once it is downloaded.
#[derive(Debug, PartialEq, Eq, Clone, Copy)]
pub enum Fetched {
    /// Too small to be an APK: discard it and fail.
    TooSmall,
    /// A bundle of split APKs: keep it under the bundle's extension and merge it.
    Bundle(BundleKind),
    /// A plain APK: move it into place.
    Single,
}

/// The decision for a file of `size` bytes fetched from `url`.
pub open spec fn fetched_spec(url: Seq<char>, size: u64) -> Fetched {
    if size <= MIN_APK_BYTES {
        Fetched::TooSmall
    } else if has_infix(url, ".apkm"@) {
        Fetched::Bundle(BundleKind::Apkm)
    } else if has_infix(url, ".xapk"@) {
        Fetched::Bundle(BundleKind::Xapk)
    } else {
        Fetched::Single
    }
}

/// Decides what to do with a file of `size` bytes fetched from `url`.
pub fn classify_fetched(url: &str, size: u64) -> (res: Fetched)
    ensures
        res == fetched_spec(url@, size),
{
    if size <= MIN_APK_BYTES {
        return Fetched::TooSmall;
    }
    let u = chars_of(url);
    if contains_str(&u, ".apkm") {
        Fetched::Bundle(BundleKind::Apkm)
    } else if contains_str(&u, ".xapk") {
        Fetched::Bundle(BundleKind::Xapk)
    } else {
        Fetched::Single
    }
}

/// The file extension a bundle is kept under.
pub fn bundle_extension(kind: BundleKind) -> (res: &'static str)
    ensures
        res@ == (match kind {
            BundleKind::Apkm => "apkm"@,
            BundleKind::Xapk => "xapk"@,
        }),
{
    match kind {
        BundleKind::Apkm => "apkm",
        BundleKind::Xapk => "xapk",
    }
}

// ---------------------------------------------------------------------------
// APKPure
// ---------------------------------------------------------------------------

/// Links on an APKPure page that mention a download.
pub const APKPURE_DOWNLOAD_LINKS: &'static str = "a[href*='download']";

/// The error when no APKPure link gave an APK.
pub const APKPURE_FAILED: &'static str = "APKPure: all attempts failed";

/// A version page that belongs to APKPure.
pub open spec fn is_apkpure_page_spec(url: Seq<char>) -> bool {
    has_infix(url, "apkpure.com"@)
}

/// Whether a version page belongs to APKPure.
pub fn is_apkpure_page(url: &str) -> (res: bool)
    ensures
        res == is_apkpure_page_spec(url@),
{
    let u = chars_of(url);
    contains_str(&u, "apkpure.com")
}

/// A link that names an APK or XAPK file.
pub open spec fn names_package_file(u: Seq<char>) -> bool {
    has_infix(u, ".apk"@) || has_infix(u, ".xapk"@)
}

/// The file links among APKPure download links, made absolute, in order
/// (elements without `href` are passed over).
pub open spec fn apkpure_file_links(hrefs: Seq<Option<Seq<char>>>) -> Seq<Seq<char>>
    decreases hrefs.len(),
{
    if hrefs.len() == 0 {
        Seq::empty()
    } else {
        let rest = apkpure_file_links(hrefs.drop_last());
        match hrefs.last() {
            Some(h) => if names_package_file(apkpure_absolute(h)) {
                rest.push(apkpure_absolute(h))
            } else {
                rest
            },
            None => rest,
        }
    }
}

/// The texts of a list of strings.
pub open spec fn strings_view(v: Vec<String>) -> Seq<Seq<char>> {
    v@.map_values(|s: String| s@)
}

/// The file links among a list of APKPure download links (their `href`s).
pub fn apkpure_file_links_from_hrefs(hrefs: &Vec<Option<String>>) -> (res: Vec<String>)
    ensures
        strings_view(res) == apkpure_file_links(attrs_view(*hrefs)),
{
    let ghost all = attrs_view(*hrefs);
    let mut res: Vec<String> = Vec::new();
    let mut i: usize = 0;
    assert(all.take(0) =~= Seq::<Option<Seq<char>>>::empty());
    assert(strings_view(res) =~= Seq::<Seq<char>>::empty());
    while i < hrefs.len()
        invariant
            0 <= i <= hrefs.len(),
            all == attrs_view(*hrefs),
            strings_view(res) == apkpure_file_links(all.take(i as int)),
        decreases hrefs.len() - i,
    {
        assert(all.take(i + 1).drop_last() =~= all.take(i as int));
        assert(all.take(i + 1).last() == opt_text(hrefs@[i as int]));
        match &hrefs[i] {
            Some(h) => {
                let hv = chars_of(h.as_str());
                let full = apkpure_absolute_url(&hv);
                if contains_str(&full, ".apk") || contains_str(&full, ".xapk") {
                    let ghost before = strings_view(res);
                    res.push(string_of(&full));
                    assert(strings_view(res) =~= before.push(full@));
                }
            },
            None => {},
        }
        i = i + 1;
    }
    assert(all.take(hrefs.len() as int) =~= all);
    res
}

/// The file links on an APKPure page's bytes; `None` when the link selector is not usable.
pub fn apkpure_file_links_from_page(html: &[u8]) -> (res: Option<Vec<String>>)
    ensures
        match res {
            Some(v) => html_select_attr(text_of(html@), APKPURE_DOWNLOAD_LINKS@, "href"@) matches Some(
                hrefs,
            ) && strings_view(v) == apkpure_file_links(hrefs),
            None => html_select_attr(text_of(html@), APKPURE_DOWNLOAD_LINKS@, "href"@) is None,
        },
{
    match select_attr(as_str(html), APKPURE_DOWNLOAD_LINKS, "href") {
        Some(hrefs) => Some(apkpure_file_links_from_hrefs(&hrefs)),
        None => None,
    }
}

/// APKPure's direct download addresses for the latest version, XAPK first.
pub open spec fn apkpure_direct_urls_spec(pkg: Seq<char>) -> Seq<Seq<char>> {
    seq![
        "https://d.apkpure.net/b/XAPK/"@ + pkg + "?version=latest"@,
        "https://d.apkpure.net/b/APK/"@ + pkg + "?version=latest"@,
    ]
}

/// APKPure's direct download addresses for the latest version of `pkg`, XAPK first.
pub fn apkpure_direct_urls(pkg: &str) -> (res: Vec<String>)
    ensures
        strings_view(res) == apkpure_direct_urls_spec(pkg@),
{
    let mut a: Vec<char> = Vec::new();
    push_str_chars(&mut a, "https://d.apkpure.net/b/XAPK/");
    push_str_chars(&mut a, pkg);
    push_str_chars(&mut a, "?version=latest");
    let mut b: Vec<char> = Vec::new();
    push_str_chars(&mut b, "https://d.apkpure.net/b/APK/");
    push_str_chars(&mut b, pkg);
    push_str_chars(&mut b, "?version=latest");
    let mut res: Vec<String> = Vec::new();
    res.push(string_of(&a));
    res.push(string_of(&b));
    assert(strings_view(res) =~= apkpure_direct_urls_spec(pkg@));
    res
}

/// APKPure's download page for a package.
pub open spec fn apkpure_download_page_spec(pkg: Seq<char>) -> Seq<char> {
    "https://apkpure.com/"@ + dotted(pkg, '-') + "/download"@
}

/// APKPure's download page for `pkg`.
pub fn apkpure_download_page(pkg: &str) -> (res: String)
    ensures
        res@ == apkpure_download_page_spec(pkg@),
{
    let slug = slug_of(pkg);
    let mut out: Vec<char> = Vec::new();
    push_str_chars(&mut out, "https://apkpure.com/");
    push_all(&mut out, &slug);
    push_str_chars(&mut out, "/download");
    string_of(&out)
}

// ---------------------------------------------------------------------------
// APKMirror
// ---------------------------------------------------------------------------

/// A link on an APKMirror version page to a download page.
pub const APKMIRROR_DOWNLOAD_PAGE: &'static str = r#"href="(/apk/[^"]*download[^"]*)""#;

/// A quoted address of an APK, APKM or XAPK file on an APKMirror download page.
pub const APKMIRROR_FILE_LINK: &'static str = r#""(https?://[^"]*\.(?:apk|apkm|xapk))""#;

/// How many download pages of a version are tried.
pub const APKMIRROR_PAGES_TRIED: usize = 3;

/// The error when no APKMirror link gave an APK.
pub const APKMIRROR_FAILED: &'static str = "APKMirror: all attempts failed";

/// A version page that belongs to APKMirror.
pub open spec fn is_apkmirror_page_spec(url: Seq<char>) -> bool {
    has_infix(url, "apkmirror.com"@)
}

/// Whether a version page belongs to APKMirror.
pub fn is_apkmirror_page(url: &str) -> (res: bool)
    ensures
        res == is_apkmirror_page_spec(url@),
{
    let u = chars_of(url);
    contains_str(&u, "apkmirror.com")
}

/// Group 1 of every match; `None` when a match lacks it.
pub open spec fn first_groups(ms: Seq<Seq<Option<Seq<char>>>>) -> Option<Seq<Seq<char>>>
    decreases ms.len(),
{
    if ms.len() == 0 {
        Some(Seq::empty())
    } else {
        match first_groups(ms.drop_last()) {
            Some(r) => if ms.last().len() >= 2 && ms.last()[1] is Some {
                Some(r.push(ms.last()[1]->0))
            } else {
                None
            },
            None => None,
        }
    }
}

/// The first `APKMIRROR_PAGES_TRIED` download pages, made absolute. `None` when the pattern
/// does not compile, a match lacks its group, or there are fewer pages than that
/// (taking them then panics).
pub open spec fn apkmirror_download_pages_spec(c: Option<Seq<Seq<Option<Seq<char>>>>>) -> Option<
    Seq<Seq<char>>,
> {
    match c {
        Some(ms) => match first_groups(ms) {
            Some(paths) => if paths.len() < APKMIRROR_PAGES_TRIED {
                None
            } else {
                Some(
                    paths.take(APKMIRROR_PAGES_TRIED as int).map_values(
                        |p: Seq<char>| "https://www.apkmirror.com"@ + p,
                    ),
                )
            },
            None => None,
        },
        None => None,
    }
}

proof fn lemma_first_groups_stuck(ms: Seq<Seq<Option<Seq<char>>>>, k: int)
    requires
        0 <= k <= ms.len(),
        first_groups(ms.take(k)) is None,
    ensures
        first_groups(ms) is None,
    decreases ms.len() - k,
{
    if k < ms.len() {
        assert(ms.take(k + 1).drop_last() =~= ms.take(k));
        lemma_first_groups_stuck(ms, k + 1);
    } else {
        assert(ms.take(k) =~= ms);
    }
}

/// The download pages to try, from the matches of `APKMIRROR_DOWNLOAD_PAGE`.
pub fn apkmirror_download_pages_from_captures(c: Option<Vec<Vec<Option<String>>>>) -> (res: Option<
    Vec<String>,
>)
    ensures
        match res {
            Some(v) => apkmirror_download_pages_spec(opt_matches(c)) == Some(strings_view(v)),
            None => apkmirror_download_pages_spec(opt_matches(c)) is None,
        },
{
    let ghost spec_c = opt_matches(c);
    let ms = match c {
        Some(ms) => ms,
        None => {
            return None;
        },
    };
    let ghost all = text_matches_view(ms);
    let mut paths: Vec<Vec<char>> = Vec::new();
    let mut i: usize = 0;
    assert(all.take(0) =~= Seq::<Seq<Option<Seq<char>>>>::empty());
    assert(crate::text::texts_view(paths) =~= Seq::<Seq<char>>::empty());
    while i < ms.len()
        invariant
            0 <= i <= ms.len(),
            all == text_matches_view(ms),
            spec_c == Some(all),
            spec_c == opt_matches(c),
            first_groups(all.take(i as int)) == Some(crate::text::texts_view(paths)),
        decreases ms.len() - i,
    {
        let m = &ms[i];
        assert(all.take(i + 1).drop_last() =~= all.take(i as int));
        assert(all.take(i + 1).last() == text_match_view(*m));
        let ghost mv = text_match_view(*m);
        assert(m@.len() > 1 ==> mv[1] == opt_text(m@[1]));
        match group_text(m, 1) {
            Some(g) => {
                crate::text::list_push(&mut paths, g);
            },
            None => {
                proof {
                    lemma_first_groups_stuck(all, i + 1);
                }
                return None;
            },
        }
        i = i + 1;
    }
    assert(all.take(ms.len() as int) =~= all);
    if paths.len() < APKMIRROR_PAGES_TRIED {
        return None;
    }
    let mut res: Vec<String> = Vec::new();
    let mut k: usize = 0;
    let ghost want = crate::text::texts_view(paths).take(APKMIRROR_PAGES_TRIED as int).map_values(
        |p: Seq<char>| "https://www.apkmirror.com"@ + p,
    );
    while k < APKMIRROR_PAGES_TRIED
        invariant
            0 <= k <= APKMIRROR_PAGES_TRIED,
            paths.len() >= APKMIRROR_PAGES_TRIED,
            want == crate::text::texts_view(paths).take(APKMIRROR_PAGES_TRIED as int).map_values(
                |p: Seq<char>| "https://www.apkmirror.com"@ + p,
            ),
            strings_view(res) == want.take(k as int),
        decreases APKMIRROR_PAGES_TRIED - k,
    {
        let mut u: Vec<char> = Vec::new();
        push_str_chars(&mut u, "https://www.apkmirror.com");
        push_all(&mut u, &paths[k]);
        let ghost before = strings_view(res);
        res.push(string_of(&u));
        assert(strings_view(res) =~= before.push(u@));
        assert(want.take(k + 1) =~= want.take(k as int).push(want[k as int]));
        k = k + 1;
    }
    assert(want.take(APKMIRROR_PAGES_TRIED as int) =~= want);
    Some(res)
}

/// The download pages to try, from an APKMirror version page's bytes.
pub fn apkmirror_download_pages_from_page(html: &[u8]) -> (res: Option<Vec<String>>)
    ensures
        match res {
            Some(v) => apkmirror_download_pages_spec(
                regex_captures(APKMIRROR_DOWNLOAD_PAGE@, text_of(html@)),
            ) == Some(strings_view(v)),
            None => apkmirror_download_pages_spec(
                regex_captures(APKMIRROR_DOWNLOAD_PAGE@, text_of(html@)),
            ) is None,
        },
{
    let c = find_captures(APKMIRROR_DOWNLOAD_PAGE, as_str(html));
    apkmirror_download_pages_from_captures(c)
}

/// A file address from one byte-level match: the text of group 1, `None` when the match lacks
/// the group or the bytes are not UTF-8 (decoding it then panics).
pub open spec fn file_link_of(m: Seq<Option<Seq<u8>>>) -> Option<Seq<char>> {
    if m.len() >= 2 && m[1] is Some && vstd::utf8::valid_utf8(m[1]->0) {
        Some(vstd::utf8::decode_utf8(m[1]->0))
    } else {
        None
    }
}

/// The file address of each match, in order.
pub open spec fn file_links_spec(ms: Seq<Seq<Option<Seq<u8>>>>) -> Seq<Option<Seq<char>>> {
    ms.map_values(|m: Seq<Option<Seq<u8>>>| file_link_of(m))
}

/// The text of UTF-8 bytes as an owned string.
fn utf8_string(b: &Vec<u8>) -> (res: Option<String>)
    ensures
        res is Some <==> vstd::utf8::valid_utf8(b@),
        res matches Some(s) ==> s@ == vstd::utf8::decode_utf8(b@),
{
    match crate::util::str_from_utf8(b.as_slice()) {
        Some(s) => Some(crate::text::string_from(s)),
        None => None,
    }
}

/// The file addresses on an APKMirror download page, from the byte-level matches of
/// `APKMIRROR_FILE_LINK`, one per match, in order; an element is `None` where reading
/// that match fails. Only the elements before the first successful download are read.
pub fn file_links_from_captures(ms: &Vec<Vec<Option<Vec<u8>>>>) -> (res: Vec<Option<String>>)
    ensures
        attrs_view(res) == file_links_spec(byte_matches_view(*ms)),
{
    let ghost all = byte_matches_view(*ms);
    let mut res: Vec<Option<String>> = Vec::new();
    let mut i: usize = 0;
    assert(attrs_view(res) =~= file_links_spec(all.take(0)));
    while i < ms.len()
        invariant
            0 <= i <= ms.len(),
            all == byte_matches_view(*ms),
            attrs_view(res) == file_links_spec(all.take(i as int)),
        decreases ms.len() - i,
    {
        let m = &ms[i];
        let ghost mv = byte_match_view(*m);
        assert(all[i as int] == mv);
        assert(m@.len() > 1 ==> mv[1] == opt_bytes(m@[1]));
        let link: Option<String> = if m.len() >= 2 {
            match &m[1] {
                Some(b) => utf8_string(b),
                None => None,
            }
        } else {
            None
        };
        assert(opt_text(link) == file_link_of(mv));
        let ghost before = attrs_view(res);
        res.push(link);
        assert(attrs_view(res) =~= before.push(opt_text(link)));
        assert(file_links_spec(all.take(i + 1)) =~= file_links_spec(all.take(i as int)).push(
            file_link_of(mv),
        ));
        i = i + 1;
    }
    assert(all.take(ms.len() as int) =~= all);
    res
}

/// The file addresses on an APKMirror download page's bytes; `None` when the pattern does not
/// compile.
pub fn file_links_from_page(html: &[u8]) -> (res: Option<Vec<Option<String>>>)
    ensures
        match res {
            Some(v) => regex_byte_captures(APKMIRROR_FILE_LINK@, html@) matches Some(ms)
                && attrs_view(v) == file_links_spec(ms),
            None => regex_byte_captures(APKMIRROR_FILE_LINK@, html@) is None,
        },
{
    match find_byte_captures(APKMIRROR_FILE_LINK, html) {
        Some(ms) => Some(file_links_from_captures(&ms)),
        None => None,
    }
}

// ---------------------------------------------------------------------------
// Google Play
// ---------------------------------------------------------------------------

/// The device profile flag for an architecture, as the Google Play client names it.
pub open spec fn gplay_arch_flag_spec(arch: Seq<char>) -> Seq<char> {
    if arch == "armeabi_v7a"@ {
        "armv7"@
    } else {
        "arm64"@
    }
}

/// The Google Play client's device profile flag for `arch`.
pub fn gplay_arch_flag(arch: &str) -> (res: &'static str)
    ensures
        res@ == gplay_arch_flag_spec(arch@),
{
    let a = chars_of(arch);
    let v7 = chars_of("armeabi_v7a");
    if crate::text::seq_equal(&a, &v7) {
        "armv7"
    } else {
        "arm64"
    }
}

/// A cookie of a Google Play delivery (either part may be missing or not a string).
pub struct GplayCookie {
    pub name: Option<String>,
    pub value: Option<String>,
}

/// A split APK of a Google Play delivery.
pub struct GplaySplit {
    pub name: Option<String>,
    pub url: Option<String>,
    pub size: Option<u64>,
}

/// What the Google Play client reports for a package, each field as far as it was present
/// with the expected type.
pub struct GplayDelivery {
    pub version_code: Option<u64>,
    pub title: Option<String>,
    pub download_url: Option<String>,
    pub cookies: Option<Vec<GplayCookie>>,
    pub splits: Option<Vec<GplaySplit>>,
}

/// A remark about one split, logged while planning.
pub enum SplitNote {
    /// The split is larger than `LARGE_SPLIT_BYTES`.
    Large { name: String, size: u64 },
    /// The split is for another architecture and is not fetched.
    Skipped { name: String },
}

/// A split note as values.
pub enum SplitNoteView {
    Large(Seq<char>, u64),
    Skipped(Seq<char>),
}

impl View for SplitNote {
    type V = SplitNoteView;

    open spec fn view(&self) -> SplitNoteView {
        match self {
            SplitNote::Large { name, size } => SplitNoteView::Large(name@, *size),
            SplitNote::Skipped { name } => SplitNoteView::Skipped(name@),
        }
    }
}

/// What to fetch from Google Play.
pub struct GplayPlan {
    /// The line that names the app and its version code.
    pub summary: String,
    /// The `Cookie` header for every request; empty for none.
    pub cookie_header: String,
    /// (address, file name) of each file, the base APK first.
    pub files: Vec<(String, String)>,
    /// Remarks about the splits, in order.
    pub notes: Vec<SplitNote>,
}

/// Splits larger than this are pointed out.
pub const LARGE_SPLIT_BYTES: u64 = 500_000_000;

/// The text of an optional string, or `d`.
pub open spec fn text_or(g: Option<String>, d: Seq<char>) -> Seq<char> {
    match g {
        Some(s) => s@,
        None => d,
    }
}

/// `name=value` for a cookie with both parts.
pub open spec fn cookie_pair(c: GplayCookie) -> Option<Seq<char>> {
    match (c.name, c.value) {
        (Some(n), Some(v)) => Some(n@ + seq!['='] + v@),
        _ => None,
    }
}

/// The pairs of the cookies that have both parts, in order.
pub open spec fn cookie_pairs(cs: Seq<GplayCookie>) -> Seq<Seq<char>>
    decreases cs.len(),
{
    if cs.len() == 0 {
        Seq::empty()
    } else {
        match cookie_pair(cs.last()) {
            Some(p) => cookie_pairs(cs.drop_last()).push(p),
            None => cookie_pairs(cs.drop_last()),
        }
    }
}

/// The `Cookie` header: the pairs joined by `; `.
pub open spec fn cookie_header_spec(d: GplayDelivery) -> Seq<char> {
    match d.cookies {
        Some(cs) => crate::text::join(cookie_pairs(cs@), "; "@),
        None => Seq::empty(),
    }
}

/// The split is for an architecture other than `arch`.
pub open spec fn other_arch_split(name: Seq<char>, arch: Seq<char>) -> bool {
    has_prefix(name, "config."@) && !has_infix(name, arch) && crate::util::first_arch(name) is Some
}

/// The notes about one split.
pub open spec fn split_notes(s: GplaySplit, arch: Seq<char>) -> Seq<SplitNoteView> {
    let name = text_or(s.name, Seq::empty());
    let size: u64 = match s.size {
        Some(z) => z,
        None => 0,
    };
    let large = if size > LARGE_SPLIT_BYTES {
        seq![SplitNoteView::Large(name, size)]
    } else {
        Seq::empty()
    };
    if other_arch_split(name, arch) {
        large.push(SplitNoteView::Skipped(name))
    } else {
        large
    }
}

/// The file name a split is saved under: `{pkg}-{version code}-{name}.apk`.
pub open spec fn split_file_name(pkg: Seq<char>, vc: u64, name: Seq<char>) -> Seq<char> {
    pkg + seq!['-'] + decimal(vc as nat) + seq!['-'] + name + ".apk"@
}

/// The file to fetch for one split, if any.
pub open spec fn split_file(s: GplaySplit, pkg: Seq<char>, vc: u64, arch: Seq<char>) -> Option<
    (Seq<char>, Seq<char>),
> {
    let name = text_or(s.name, Seq::empty());
    if other_arch_split(name, arch) {
        None
    } else {
        match s.url {
            Some(u) => Some((u@, split_file_name(pkg, vc, name))),
            None => None,
        }
    }
}

/// Files and notes for the splits, in order.
pub open spec fn splits_plan(ss: Seq<GplaySplit>, pkg: Seq<char>, vc: u64, arch: Seq<char>) -> (
    Seq<(Seq<char>, Seq<char>)>,
    Seq<SplitNoteView>,
)
    decreases ss.len(),
{
    if ss.len() == 0 {
        (Seq::empty(), Seq::empty())
    } else {
        let r = splits_plan(ss.drop_last(), pkg, vc, arch);
        let files = match split_file(ss.last(), pkg, vc, arch) {
            Some(f) => r.0.push(f),
            None => r.0,
        };
        (files, r.1 + split_notes(ss.last(), arch))
    }
}

/// The version code, 0 when missing.
pub open spec fn vc_of(d: GplayDelivery) -> u64 {
    match d.version_code {
        Some(v) => v,
        None => 0,
    }
}

/// The files to fetch: the base APK (when there is an address for it), then the splits.
pub open spec fn gplay_files_spec(d: GplayDelivery, pkg: Seq<char>, arch: Seq<char>) -> Seq<
    (Seq<char>, Seq<char>),
> {
    let base: Seq<(Seq<char>, Seq<char>)> = match d.download_url {
        Some(u) => seq![(u@, "base.apk"@)],
        None => Seq::empty(),
    };
    match d.splits {
        Some(ss) => base + splits_plan(ss@, pkg, vc_of(d), arch).0,
        None => base,
    }
}

/// The notes about the splits.
pub open spec fn gplay_notes_spec(d: GplayDelivery, pkg: Seq<char>, arch: Seq<char>) -> Seq<
    SplitNoteView,
> {
    match d.splits {
        Some(ss) => splits_plan(ss@, pkg, vc_of(d), arch).1,
        None => Seq::empty(),
    }
}

/// The summary line: `Google Play: {title} (vc {version code})`, the title falling back to
/// the package id.
pub open spec fn gplay_summary_spec(d: GplayDelivery, pkg: Seq<char>) -> Seq<char> {
    "Google Play: "@ + text_or(d.title, pkg) + " (vc "@ + decimal(vc_of(d) as nat) + seq![')']
}

/// The (address, file name) pairs of a list.
pub open spec fn files_view(v: Vec<(String, String)>) -> Seq<(Seq<char>, Seq<char>)> {
    v@.map_values(|p: (String, String)| (p.0@, p.1@))
}

/// The notes of a list.
pub open spec fn notes_view(v: Vec<SplitNote>) -> Seq<SplitNoteView> {
    v@.map_values(|n: SplitNote| n@)
}

/// The text of an optional string, or the characters of `d`.
fn text_or_chars(g: &Option<String>, d: &Vec<char>) -> (res: Vec<char>)
    ensures
        res@ == text_or(*g, d@),
{
    match g {
        Some(s) => chars_of(s.as_str()),
        None => {
            let mut v: Vec<char> = Vec::new();
            push_all(&mut v, d);
            v
        },
    }
}

/// The `Cookie` header for a delivery.
pub fn gplay_cookie_header(d: &GplayDelivery) -> (res: String)
    ensures
        res@ == cookie_header_spec(*d),
{
    let mut out: Vec<char> = Vec::new();
    proof {
        reveal_strlit("; ");
        reveal_strlit("=");
    }
    match &d.cookies {
        None => {},
        Some(cs) => {
            let ghost all = cs@;
            let mut any = false;
            let mut i: usize = 0;
            assert(all.take(0) =~= Seq::<GplayCookie>::empty());
            while i < cs.len()
                invariant
                    0 <= i <= cs.len(),
                    all == cs@,
                    any == (cookie_pairs(all.take(i as int)).len() > 0),
                    out@ == crate::text::join(cookie_pairs(all.take(i as int)), "; "@),
                decreases cs.len() - i,
            {
                let c = &cs[i];
                assert(all.take(i + 1).drop_last() =~= all.take(i as int));
                assert(all.take(i + 1).last() == *c);
                match (&c.name, &c.value) {
                    (Some(n), Some(v)) => {
                        let mut pair: Vec<char> = Vec::new();
                        push_str_chars(&mut pair, n.as_str());
                        pair.push('=');
                        push_str_chars(&mut pair, v.as_str());
                        let ghost prev = cookie_pairs(all.take(i as int));
                        assert(pair@ =~= n@ + seq!['='] + v@);
                        assert(cookie_pair(*c) == Some(pair@));
                        proof {
                            if prev.len() > 0 {
                                assert(prev.push(pair@).drop_last() =~= prev);
                            } else {
                                assert(prev.push(pair@) =~= seq![pair@]);
                            }
                        }
                        if any {
                            push_str_chars(&mut out, "; ");
                        }
                        push_all(&mut out, &pair);
                        any = true;
                    },
                    _ => {},
                }
                i = i + 1;
            }
            assert(all.take(cs.len() as int) =~= all);
        },
    }
    string_of(&out)
}

/// The summary line for a delivery of `pkg`.
pub fn gplay_summary(d: &GplayDelivery, pkg: &str) -> (res: String)
    ensures
        res@ == gplay_summary_spec(*d, pkg@),
{
    let vc: u64 = match d.version_code {
        Some(v) => v,
        None => 0,
    };
    let p = chars_of(pkg);
    let title = text_or_chars(&d.title, &p);
    let mut out: Vec<char> = Vec::new();
    push_str_chars(&mut out, "Google Play: ");
    push_all(&mut out, &title);
    push_str_chars(&mut out, " (vc ");
    let digits = decimal_of(vc);
    push_all(&mut out, &digits);
    out.push(')');
    string_of(&out)
}

/// Whether a split is for an architecture other than `arch`.
fn is_other_arch_split(name: &Vec<char>, arch: &Vec<char>) -> (res: bool)
    ensures
        res == other_arch_split(name@, arch@),
{
    crate::text::starts_with_str(name, "config.") && !crate::text::contains_seq(name, arch)
        && crate::util::arch_in_name(name).is_some()
}

/// Plans what to fetch from Google Play for `pkg` on `arch`.
pub fn plan_gplay(d: &GplayDelivery, pkg: &str, arch: &str) -> (res: GplayPlan)
    ensures
        res.summary@ == gplay_summary_spec(*d, pkg@),
        res.cookie_header@ == cookie_header_spec(*d),
        files_view(res.files) == gplay_files_spec(*d, pkg@, arch@),
        notes_view(res.notes) == gplay_notes_spec(*d, pkg@, arch@),
{
    let summary = gplay_summary(d, pkg);
    let cookie_header = gplay_cookie_header(d);
    let vc: u64 = match d.version_code {
        Some(v) => v,
        None => 0,
    };
    let archv = chars_of(arch);
    let mut files: Vec<(String, String)> = Vec::new();
    let mut notes: Vec<SplitNote> = Vec::new();
    proof {
        reveal_strlit("base.apk");
    }
    match &d.download_url {
        Some(u) => {
            files.push((u.clone(), string_from("base.apk")));
        },
        None => {},
    }
    let ghost base = files_view(files);
    assert(base =~= match d.download_url {
        Some(u) => seq![(u@, "base.apk"@)],
        None => Seq::<(Seq<char>, Seq<char>)>::empty(),
    });
    assert(notes_view(notes) =~= Seq::<SplitNoteView>::empty());
    match &d.splits {
        None => {},
        Some(ss) => {
            let ghost all = ss@;
            let mut i: usize = 0;
            assert(all.take(0) =~= Seq::<GplaySplit>::empty());
            assert(base + splits_plan(all.take(0), pkg@, vc, arch@).0 =~= base);
            while i < ss.len()
                invariant
                    0 <= i <= ss.len(),
                    all == ss@,
                    archv@ == arch@,
                    files_view(files) == base + splits_plan(all.take(i as int), pkg@, vc, arch@).0,
                    notes_view(notes) == splits_plan(all.take(i as int), pkg@, vc, arch@).1,
                decreases ss.len() - i,
            {
                let s = &ss[i];
                assert(all.take(i + 1).drop_last() =~= all.take(i as int));
                assert(all.take(i + 1).last() == *s);
                let empty: Vec<char> = Vec::new();
                let name = text_or_chars(&s.name, &empty);
                let size: u64 = match s.size {
                    Some(z) => z,
                    None => 0,
                };
                let ghost prev_notes = notes_view(notes);
                let ghost prev_files = files_view(files);
                if size > LARGE_SPLIT_BYTES {
                    notes.push(SplitNote::Large { name: string_of(&name), size });
                }
                let other = is_other_arch_split(&name, &archv);
                if other {
                    notes.push(SplitNote::Skipped { name: string_of(&name) });
                } else {
                    match &s.url {
                        Some(u) => {
                            let mut fname: Vec<char> = Vec::new();
                            push_str_chars(&mut fname, pkg);
                            fname.push('-');
                            let digits = decimal_of(vc);
                            push_all(&mut fname, &digits);
                            fname.push('-');
                            push_all(&mut fname, &name);
                            push_str_chars(&mut fname, ".apk");
                            assert(fname@ =~= split_file_name(pkg@, vc, name@));
                            files.push((u.clone(), string_of(&fname)));
                            assert(files_view(files) =~= prev_files.push((u@, fname@)));
                            assert(split_file(*s, pkg@, vc, arch@) == Some((u@, fname@)));
                        },
                        None => {},
                    }
                }
                assert(notes_view(notes) =~= prev_notes + split_notes(*s, arch@));
                assert(files_view(files) == match split_file(*s, pkg@, vc, arch@) {
                    Some(f) => prev_files.push(f),
                    None => prev_files,
                });
                i = i + 1;
            }
            assert(all.take(ss.len() as int) =~= all);
        },
    }
    GplayPlan { summary, cookie_header, files, notes }
}

// ---------------------------------------------------------------------------
// Laws
// ---------------------------------------------------------------------------

/// A download resumes only when it asked for the rest of a partial file.
pub proof fn law_resume_only_after_range(status: u16, existing: u64)
    ensures
        resumes(status, existing) ==> range_header_spec(existing) is Some,
        range_header_spec(existing) is None ==> !resumes(status, existing),
{
}

proof fn lemma_splits_plan_files(ss: Seq<GplaySplit>, pkg: Seq<char>, vc: u64, arch: Seq<char>)
    ensures
        forall|k: int| 0 <= k < splits_plan(ss, pkg, vc, arch).0.len() ==> crate::text::has_suffix(
            #[trigger] splits_plan(ss, pkg, vc, arch).0[k].1,
            ".apk"@,
        ),
    decreases ss.len(),
{
    reveal_strlit(".apk");
    if ss.len() > 0 {
        lemma_splits_plan_files(ss.drop_last(), pkg, vc, arch);
        let prev = splits_plan(ss.drop_last(), pkg, vc, arch).0;
        let cur = splits_plan(ss, pkg, vc, arch).0;
        assert forall|k: int| 0 <= k < cur.len() implies crate::text::has_suffix(
            #[trigger] cur[k].1,
            ".apk"@,
        ) by {
            if k < prev.len() {
                assert(cur[k] == prev[k]);
            } else {
                let name = text_or(ss.last().name, Seq::empty());
                let f = split_file_name(pkg, vc, name);
                assert(cur[k].1 == f);
                let head = pkg + seq!['-'] + decimal(vc as nat) + seq!['-'] + name;
                assert(f == head + ".apk"@);
                assert((head + ".apk"@).skip(head.len() as int) =~= ".apk"@);
            }
        }
    }
}

/// Every file planned from Google Play is saved under a name ending in `.apk`.
pub proof fn law_gplay_files_are_apks(d: GplayDelivery, pkg: Seq<char>, arch: Seq<char>)
    ensures
        forall|k: int| 0 <= k < gplay_files_spec(d, pkg, arch).len() ==> crate::text::has_suffix(
            #[trigger] gplay_files_spec(d, pkg, arch)[k].1,
            ".apk"@,
        ),
{
    let base: Seq<(Seq<char>, Seq<char>)> = match d.download_url {
        Some(u) => seq![(u@, "base.apk"@)],
        None => Seq::empty(),
    };
    let all = gplay_files_spec(d, pkg, arch);
    reveal_strlit("base.apk");
    reveal_strlit(".apk");
    if let Some(ss) = d.splits {
        lemma_splits_plan_files(ss@, pkg, vc_of(d), arch);
    }
    assert forall|k: int| 0 <= k < all.len() implies crate::text::has_suffix(#[trigger] all[k].1, ".apk"@) by {
        if k < base.len() {
            assert(all[k] == base[k]);
            assert(base[k].1.skip(4) =~= ".apk"@);
        } else {
            let ss = d.splits->0;
            assert(all[k] == splits_plan(ss@, pkg, vc_of(d), arch).0[k - base.len()]);
        }
    }
}

/// A split for another architecture is never fetched: it gets no file.
pub proof fn law_other_arch_split_not_fetched(s: GplaySplit, pkg: Seq<char>, vc: u64, arch: Seq<char>)
    requires
        other_arch_split(text_or(s.name, Seq::empty()), arch),
    ensures
        split_file(s, pkg, vc, arch) is None,
{
}

/// APKMirror download pages, when there are any, are exactly `APKMIRROR_PAGES_TRIED`.
pub proof fn law_apkmirror_pages_counted(c: Option<Seq<Seq<Option<Seq<char>>>>>)
    ensures
        apkmirror_download_pages_spec(c) matches Some(v) ==> v.len() == APKMIRROR_PAGES_TRIED,
{
}

// ---------------------------------------------------------------------------
// Google Play through the client's own download command
// ---------------------------------------------------------------------------

/// A file the download command wrote that can be the app: an APK that is neither a split nor
/// an asset pack.
pub open spec fn is_main_apk(name: Seq<char>) -> bool {
    has_suffix(name, ".apk"@) && !has_infix(name, "split"@) && !has_infix(name, "asset"@)
}

/// The largest main APK among the (name, size) files, the first of equal ones.
pub open spec fn largest_main_apk(files: Seq<(Seq<char>, u64)>) -> Option<int>
    decreases files.len(),
{
    if files.len() == 0 {
        None
    } else {
        let i = files.len() - 1;
        let prev = largest_main_apk(files.drop_last());
        if is_main_apk(files[i].0) && (prev is None || files[prev->0].1 < files[i].1) {
            Some(i)
        } else {
            prev
        }
    }
}

/// The (name, size) of each file.
pub open spec fn sized_files_view(v: Vec<(String, u64)>) -> Seq<(Seq<char>, u64)> {
    v@.map_values(|f: (String, u64)| (f.0@, f.1))
}

/// Picks the file to keep among the (name, size) files the download command wrote, in
/// listing order.
pub fn pick_main_apk(files: &Vec<(String, u64)>) -> (res: Option<usize>)
    ensures
        match res {
            Some(i) => largest_main_apk(sized_files_view(*files)) == Some(i as int),
            None => largest_main_apk(sized_files_view(*files)) is None,
        },
{
    let ghost all = sized_files_view(*files);
    let mut best: Option<usize> = None;
    let mut i: usize = 0;
    assert(all.take(0) =~= Seq::<(Seq<char>, u64)>::empty());
    while i < files.len()
        invariant
            0 <= i <= files.len(),
            all == sized_files_view(*files),
            match best {
                Some(b) => b < i && largest_main_apk(all.take(i as int)) == Some(b as int),
                None => largest_main_apk(all.take(i as int)) is None,
            },
        decreases files.len() - i,
    {
        let name = chars_of(files[i].0.as_str());
        assert(all.take(i + 1).drop_last() =~= all.take(i as int));
        assert(all.take(i + 1)[i as int] == (name@, files@[i as int].1));
        let main = crate::text::ends_with_str(&name, ".apk") && !contains_str(&name, "split")
            && !contains_str(&name, "asset");
        if main {
            match best {
                None => {
                    best = Some(i);
                },
                Some(b) => {
                    assert(all.take(i + 1)[b as int] == all[b as int]);
                    if files[b].1 < files[i].1 {
                        best = Some(i);
                    }
                },
            }
        }
        i = i + 1;
    }
    assert(all.take(files.len() as int) =~= all);
    best
}

// ---------------------------------------------------------------------------
// The Google Play client's output
// ---------------------------------------------------------------------------

/// What `String::from_utf8_lossy` makes of `bytes`: their text, with U+FFFD in place of each
/// invalid sequence.
pub uninterp spec fn lossy_text(bytes: Seq<u8>) -> Seq<char>;

/// `String::from_utf8_lossy`. Claimed: the result is named by the bytes, and valid UTF-8 reads
/// as the text it encodes; what replaces invalid sequences is not restated.
#[verifier::external_body]
pub(crate) fn lossy_string(bytes: &[u8]) -> (res: String)
    ensures
        res@ == lossy_text(bytes@),
        vstd::utf8::valid_utf8(bytes@) ==> res@ == vstd::utf8::decode_utf8(bytes@),
{
    String::from_utf8_lossy(bytes).to_string()
}

/// What `serde_json::from_str::<serde_json::Value>` followed by reading the delivery's fields
/// gives for `text`: the delivery, or the parse error's message. A field that is missing or
/// of another type reads as `None`.
pub uninterp spec fn json_delivery(text: Seq<char>) -> Result<GplayDelivery, Seq<char>>;

/// `serde_json::from_str::<serde_json::Value>`, then `Value` indexing with `as_u64`,
/// `as_str` and `as_array` for each field. Claimed: the result is named by the text; what a
/// JSON parser accepts is not restated.
#[verifier::external_body]
pub(crate) fn parse_delivery(text: &str) -> (res: Result<GplayDelivery, String>)
    ensures
        match res {
            Ok(d) => json_delivery(text@) == Ok::<GplayDelivery, Seq<char>>(d),
            Err(e) => json_delivery(text@) == Err::<GplayDelivery, Seq<char>>(e@),
        },
{
    let s = |x: &Value| x.as_str().map(String::from);
    from_str(text).map_err(|e| e.to_string()).map(|v: Value| GplayDelivery {
        version_code: v["version_code"].as_u64(),
        title: s(&v["title"]),
        download_url: s(&v["download_url"]),
        cookies: v["cookies"].as_array().map(|cs| cs.iter().map(|c| GplayCookie { name: s(&c["name"]), value: s(&c["value"]) }).collect()),
        splits: v["splits"].as_array().map(|ss| ss.iter().map(|x| GplaySplit { name: s(&x["name"]), url: s(&x["url"]), size: x["size"].as_u64() }).collect()),
    })
}

/// The plan for what the Google Play client printed on its standard output, or the error
/// `parse delivery JSON: {message}` when that is not a JSON document.
pub fn plan_gplay_output(stdout: &[u8], pkg: &str, arch: &str) -> (res: Result<GplayPlan, String>)
    ensures
        match json_delivery(lossy_text(stdout@)) {
            Ok(d) => res matches Ok(p) && p.summary@ == gplay_summary_spec(d, pkg@)
                && p.cookie_header@ == cookie_header_spec(d) && files_view(p.files)
                == gplay_files_spec(d, pkg@, arch@) && notes_view(p.notes) == gplay_notes_spec(
                d,
                pkg@,
                arch@,
            ),
            Err(m) => res matches Err(e) && e@ == "parse delivery JSON: "@ + m,
        },
{
    let text = lossy_string(stdout);
    match parse_delivery(text.as_str()) {
        Ok(d) => Ok(plan_gplay(&d, pkg, arch)),
        Err(m) => {
            let mut out: Vec<char> = Vec::new();
            push_str_chars(&mut out, "parse delivery JSON: ");
            push_str_chars(&mut out, m.as_str());
            Err(string_of(&out))
        },
    }
}

/// The error reported when the Google Play client fails: `gplaydl API: ` and its standard
/// error output, trimmed.
pub fn gplay_client_error(stderr: &[u8]) -> (res: String)
    ensures
        res@ == "gplaydl API: "@ + crate::text::trim(lossy_text(stderr@)),
{
    let text = lossy_string(stderr);
    let t = crate::text::trim_chars(&chars_of(text.as_str()));
    let mut out: Vec<char> = Vec::new();
    push_str_chars(&mut out, "gplaydl API: ");
    push_all(&mut out, &t);
    string_of(&out)
}

} // verus!
