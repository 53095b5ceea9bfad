//! Reading app search results and version lists out of store pages.

use vstd::prelude::*;

use crate::scrape::{
    attrs_view, find_captures, html_select_attr, regex_captures, select_attr, text_match_view,
    text_matches_view,
};
use crate::text::{
    after_last, after_last_char, ascii_upper, has_infix, has_prefix, trim_end_char, trim_end_matching, chars_of, contains_char, group_text, join,
    join_words, list_contains, list_push, push_all, push_str_chars, replace_char,
    replace_char_with, string_of, texts_view, trim, trim_chars, upper_ascii, words,
};
use crate::util::{as_str, text_of};

verus! {

/// One downloadable version of an app: a label to show and the page it is listed on.
#[derive(Debug, PartialEq, Eq)]
pub struct Version {
    pub label: String,
    pub url: String,
}

impl View for Version {
    type V = (Seq<char>, Seq<char>);

    open spec fn view(&self) -> (Seq<char>, Seq<char>) {
        (self.label@, self.url@)
    }
}

/// The (label, url) of each version, in order.
pub open spec fn versions_view(v: Vec<Version>) -> Seq<(Seq<char>, Seq<char>)> {
    v@.map_values(|x: Version| x@)
}

/// The (title, package) of each search result, in order.
pub open spec fn pairs_view(v: Vec<(String, String)>) -> Seq<(Seq<char>, Seq<char>)> {
    v@.map_values(|p: (String, String)| (p.0@, p.1@))
}

// ---------------------------------------------------------------------------
// Google Play search
// ---------------------------------------------------------------------------

/// Store links with the app's name in `aria-label` before the package id.
pub const PLAY_LABEL_THEN_ID: &'static str = r#"aria-label="([^"]*)"[^>]*href="/store/apps/details\?id=([^"&]+)""#;

/// Store links with the package id before the app's name in `aria-label`.
pub const PLAY_ID_THEN_LABEL: &'static str = r#"href="/store/apps/details\?id=([^"&]+)"[^>]*aria-label="([^"]*)""#;

/// Store links with the app's name in `data-title` before the package id.
pub const PLAY_TITLE_THEN_ID: &'static str = r#"data-title="([^"]+)"[^>]*href="/store/apps/details\?id=([^"&]+)""#;

/// Any store link: the package id alone.
pub const PLAY_ID_ONLY: &'static str = r#"href="/store/apps/details\?id=([^"&]+)""#;

/// The Google Play search page for `query`: its words joined by `+`.
pub open spec fn play_search_url_spec(query: Seq<char>) -> Seq<char> {
    "https://play.google.com/store/search?q="@ + join(words(query), seq!['+']) + "&c=apps"@
}

/// Packages already met, and the results gathered so far.
pub type PlayState = (Seq<Seq<char>>, Seq<(Seq<char>, Seq<char>)>);

/// One match of a two-group pattern. `None` where the match lacks a group
/// (reading the group then panics).
pub open spec fn play_pair_step(st: PlayState, m: Seq<Option<Seq<char>>>) -> Option<PlayState> {
    if m.len() < 3 || m[1] is None || m[2] is None {
        None
    } else {
        let a = trim(m[1]->0);
        let b = trim(m[2]->0);
        // the groups come reversed when the id has no dot and the label has one
        let t = if !b.contains('.') && a.contains('.') { b } else { a };
        let p = if !b.contains('.') && a.contains('.') { a } else { b };
        if st.0.contains(p) {
            Some(st)
        } else if t.len() > 0 {
            Some((st.0.push(p), st.1.push((t, p))))
        } else {
            Some((st.0.push(p), st.1))
        }
    }
}

/// All matches of a two-group pattern, in order.
pub open spec fn play_pairs(st: Option<PlayState>, ms: Seq<Seq<Option<Seq<char>>>>) -> Option<
    PlayState,
>
    decreases ms.len(),
{
    if ms.len() == 0 {
        st
    } else {
        match play_pairs(st, ms.drop_last()) {
            Some(s) => play_pair_step(s, ms.last()),
            None => None,
        }
    }
}

/// A readable title made from a package id: its last dot-separated part with `-` and `_`
/// turned into spaces and the first letter in upper case. `None` where the first character
/// is not ASCII (cutting its first byte off then panics).
pub open spec fn package_title(p: Seq<char>) -> Option<Seq<char>> {
    let name = replace_char(replace_char(after_last(p, '.'), '-', seq![' ']), '_', seq![' ']);
    if name.len() == 0 {
        Some(name)
    } else if (name[0] as u32) >= 128 {
        None
    } else {
        Some(seq![ascii_upper(name[0])] + name.drop_first())
    }
}

/// One match of the id-only pattern.
pub open spec fn play_id_step(st: PlayState, m: Seq<Option<Seq<char>>>) -> Option<PlayState> {
    if m.len() < 2 || m[1] is None {
        None
    } else {
        let p = trim(m[1]->0);
        if st.0.contains(p) {
            Some(st)
        } else {
            match package_title(p) {
                Some(t) => Some((st.0.push(p), st.1.push((t, p)))),
                None => None,
            }
        }
    }
}

/// All matches of the id-only pattern, in order.
pub open spec fn play_ids(st: Option<PlayState>, ms: Seq<Seq<Option<Seq<char>>>>) -> Option<
    PlayState,
>
    decreases ms.len(),
{
    if ms.len() == 0 {
        st
    } else {
        match play_ids(st, ms.drop_last()) {
            Some(s) => play_id_step(s, ms.last()),
            None => None,
        }
    }
}

/// Search results from the matches of the four store-link patterns (`None` for a pattern
/// that does not compile): each package once, in the order first met.
pub open spec fn play_results_spec(
    c1: Option<Seq<Seq<Option<Seq<char>>>>>,
    c2: Option<Seq<Seq<Option<Seq<char>>>>>,
    c3: Option<Seq<Seq<Option<Seq<char>>>>>,
    c4: Option<Seq<Seq<Option<Seq<char>>>>>,
) -> Option<Seq<(Seq<char>, Seq<char>)>> {
    let s0: Option<PlayState> = Some((Seq::empty(), Seq::empty()));
    let s1 = match c1 {
        Some(ms) => play_pairs(s0, ms),
        None => None,
    };
    let s2 = match c2 {
        Some(ms) => play_pairs(s1, ms),
        None => None,
    };
    let s3 = match c3 {
        Some(ms) => play_pairs(s2, ms),
        None => None,
    };
    let s4 = match c4 {
        Some(ms) => play_ids(s3, ms),
        None => None,
    };
    match s4 {
        Some(st) => Some(st.1),
        None => None,
    }
}

/// The search results of a page's text.
pub open spec fn play_results_of_text(text: Seq<char>) -> Option<Seq<(Seq<char>, Seq<char>)>> {
    play_results_spec(
        regex_captures(PLAY_LABEL_THEN_ID@, text),
        regex_captures(PLAY_ID_THEN_LABEL@, text),
        regex_captures(PLAY_TITLE_THEN_ID@, text),
        regex_captures(PLAY_ID_ONLY@, text),
    )
}

proof fn lemma_play_pairs_from_none(ms: Seq<Seq<Option<Seq<char>>>>)
    ensures
        play_pairs(None, ms) is None,
    decreases ms.len(),
{
    if ms.len() > 0 {
        lemma_play_pairs_from_none(ms.drop_last());
    }
}

proof fn lemma_play_ids_from_none(ms: Seq<Seq<Option<Seq<char>>>>)
    ensures
        play_ids(None, ms) is None,
    decreases ms.len(),
{
    if ms.len() > 0 {
        lemma_play_ids_from_none(ms.drop_last());
    }
}

/// A failure part way stays a failure.
proof fn lemma_play_pairs_stuck(st: Option<PlayState>, ms: Seq<Seq<Option<Seq<char>>>>, k: int)
    requires
        0 <= k <= ms.len(),
        play_pairs(st, ms.take(k)) is None,
    ensures
        play_pairs(st, ms) is None,
    decreases ms.len() - k,
{
    if k < ms.len() {
        assert(ms.take(k + 1).drop_last() =~= ms.take(k));
        lemma_play_pairs_stuck(st, ms, k + 1);
    } else {
        assert(ms.take(k) =~= ms);
    }
}

proof fn lemma_play_ids_stuck(st: Option<PlayState>, ms: Seq<Seq<Option<Seq<char>>>>, k: int)
    requires
        0 <= k <= ms.len(),
        play_ids(st, ms.take(k)) is None,
    ensures
        play_ids(st, ms) is None,
    decreases ms.len() - k,
{
    if k < ms.len() {
        assert(ms.take(k + 1).drop_last() =~= ms.take(k));
        lemma_play_ids_stuck(st, ms, k + 1);
    } else {
        assert(ms.take(k) =~= ms);
    }
}

/// The Google Play search page for `query`.
pub fn play_search_url(query: &str) -> (res: String)
    ensures
        res@ == play_search_url_spec(query@),
{
    let q = chars_of(query);
    let joined = join_words(&q, "+");
    proof {
        reveal_strlit("+");
        assert("+"@ =~= seq!['+']);
    }
    let mut out: Vec<char> = Vec::new();
    push_str_chars(&mut out, "https://play.google.com/store/search?q=");
    push_all(&mut out, &joined);
    push_str_chars(&mut out, "&c=apps");
    string_of(&out)
}

/// A title made from a package id (see `package_title`).
pub fn title_from_package(p: &Vec<char>) -> (res: Option<Vec<char>>)
    ensures
        match res {
            Some(t) => package_title(p@) == Some(t@),
            None => package_title(p@) is None,
        },
{
    let last = after_last_char(p, '.');
    let a = replace_char_with(&last, '-', " ");
    let name = replace_char_with(&a, '_', " ");
    proof {
        reveal_strlit(" ");
        assert(" "@ =~= seq![' ']);
    }
    if name.len() == 0 {
        return Some(name);
    }
    let first = name[0];
    if (first as u32) >= 128 {
        return None;
    }
    let mut t: Vec<char> = Vec::new();
    t.push(upper_ascii(first));
    let mut i: usize = 1;
    while i < name.len()
        invariant
            1 <= i <= name.len(),
            t@ == seq![ascii_upper(name@[0])] + name@.subrange(1, i as int),
        decreases name.len() - i,
    {
        t.push(name[i]);
        i = i + 1;
        assert(name@.subrange(1, i as int) == name@.subrange(1, i - 1).push(name@[i - 1]));
    }
    assert(name@.subrange(1, name@.len() as int) =~= name@.drop_first());
    Some(t)
}

/// Pushes a result pair.
fn push_pair(res: &mut Vec<(String, String)>, t: &Vec<char>, p: &Vec<char>)
    ensures
        pairs_view(*final(res)) == pairs_view(*old(res)).push((t@, p@)),
{
    let ghost before = pairs_view(*res);
    res.push((string_of(t), string_of(p)));
    assert(pairs_view(*res) =~= before.push((t@, p@)));
}

/// Folds the matches of a two-group pattern into `seen` and `res`.
fn gather_pairs(
    ms: &Vec<Vec<Option<String>>>,
    seen: &mut Vec<Vec<char>>,
    res: &mut Vec<(String, String)>,
) -> (ok: bool)
    ensures
        ok ==> play_pairs(Some((texts_view(*old(seen)), pairs_view(*old(res)))), text_matches_view(*ms))
            == Some((texts_view(*final(seen)), pairs_view(*final(res)))),
        !ok ==> play_pairs(Some((texts_view(*old(seen)), pairs_view(*old(res)))), text_matches_view(*ms))
            is None,
{
    let ghost start: Option<PlayState> = Some((texts_view(*seen), pairs_view(*res)));
    let ghost all = text_matches_view(*ms);
    let mut i: usize = 0;
    assert(all.take(0) =~= Seq::<Seq<Option<Seq<char>>>>::empty());
    while i < ms.len()
        invariant
            0 <= i <= ms.len(),
            all == text_matches_view(*ms),
            start == Some((texts_view(*old(seen)), pairs_view(*old(res)))),
            play_pairs(start, all.take(i as int)) == Some((texts_view(*seen), pairs_view(*res))),
        decreases ms.len() - i,
    {
        let m = &ms[i];
        assert(all.take(i + 1).drop_last() =~= all.take(i as int));
        assert(all.take(i + 1).last() == text_match_view(*m));
        let ga = group_text(m, 1);
        let gb = group_text(m, 2);
        let ghost mv = text_match_view(*m);
        assert(m@.len() > 1 ==> mv[1] == crate::scrape::opt_text(m@[1]));
        assert(m@.len() > 2 ==> mv[2] == crate::scrape::opt_text(m@[2]));
        let (a0, b0) = match (ga, gb) {
            (Some(a0), Some(b0)) => (a0, b0),
            _ => {
                proof {
                    lemma_play_pairs_stuck(start, all, i + 1);
                }
                return false;
            },
        };
        let a = trim_chars(&a0);
        let b = trim_chars(&b0);
        let swap = !contains_char(&b, '.') && contains_char(&a, '.');
        let (t, p) = if swap {
            (b, a)
        } else {
            (a, b)
        };
        if !list_contains(seen, &p) {
            if t.len() > 0 {
                push_pair(res, &t, &p);
            }
            list_push(seen, p);
        }
        i = i + 1;
    }
    assert(all.take(ms.len() as int) =~= all);
    true
}

/// Folds the matches of the id-only pattern into `seen` and `res`.
fn gather_ids(
    ms: &Vec<Vec<Option<String>>>,
    seen: &mut Vec<Vec<char>>,
    res: &mut Vec<(String, String)>,
) -> (ok: bool)
    ensures
        ok ==> play_ids(Some((texts_view(*old(seen)), pairs_view(*old(res)))), text_matches_view(*ms))
            == Some((texts_view(*final(seen)), pairs_view(*final(res)))),
        !ok ==> play_ids(Some((texts_view(*old(seen)), pairs_view(*old(res)))), text_matches_view(*ms))
            is None,
{
    let ghost start: Option<PlayState> = Some((texts_view(*seen), pairs_view(*res)));
    let ghost all = text_matches_view(*ms);
    let mut i: usize = 0;
    assert(all.take(0) =~= Seq::<Seq<Option<Seq<char>>>>::empty());
    while i < ms.len()
        invariant
            0 <= i <= ms.len(),
            all == text_matches_view(*ms),
            start == Some((texts_view(*old(seen)), pairs_view(*old(res)))),
            play_ids(start, all.take(i as int)) == Some((texts_view(*seen), pairs_view(*res))),
        decreases ms.len() - i,
    {
        let m = &ms[i];
        assert(all.take(i + 1).drop_last() =~= all.take(i as int));
        assert(all.take(i + 1).last() == text_match_view(*m));
        let ghost mv = text_match_view(*m);
        assert(m@.len() > 1 ==> mv[1] == crate::scrape::opt_text(m@[1]));
        let p0 = match group_text(m, 1) {
            Some(p0) => p0,
            None => {
                proof {
                    lemma_play_ids_stuck(start, all, i + 1);
                }
                return false;
            },
        };
        let p = trim_chars(&p0);
        if !list_contains(seen, &p) {
            match title_from_package(&p) {
                Some(t) => {
                    push_pair(res, &t, &p);
                    list_push(seen, p);
                },
                None => {
                    proof {
                        lemma_play_ids_stuck(start, all, i + 1);
                    }
                    return false;
                },
            }
        }
        i = i + 1;
    }
    assert(all.take(ms.len() as int) =~= all);
    true
}

/// Search results from the matches of the four store-link patterns (in the order
/// `PLAY_LABEL_THEN_ID`, `PLAY_ID_THEN_LABEL`, `PLAY_TITLE_THEN_ID`, `PLAY_ID_ONLY`).
/// `None` exactly where reading the page would fail: a pattern that does not compile,
/// a match without its groups, or a title that cannot be cut.
pub fn play_results_from_captures(
    c1: Option<Vec<Vec<Option<String>>>>,
    c2: Option<Vec<Vec<Option<String>>>>,
    c3: Option<Vec<Vec<Option<String>>>>,
    c4: Option<Vec<Vec<Option<String>>>>,
) -> (res: Option<Vec<(String, String)>>)
    ensures
        match res {
            Some(v) => play_results_spec(
                opt_matches(c1),
                opt_matches(c2),
                opt_matches(c3),
                opt_matches(c4),
            ) == Some(pairs_view(v)),
            None => play_results_spec(
                opt_matches(c1),
                opt_matches(c2),
                opt_matches(c3),
                opt_matches(c4),
            ) is None,
        },
{
    let mut seen: Vec<Vec<char>> = Vec::new();
    let mut res: Vec<(String, String)> = Vec::new();
    assert(texts_view(seen) =~= Seq::<Seq<char>>::empty());
    assert(pairs_view(res) =~= Seq::<(Seq<char>, Seq<char>)>::empty());
    proof {
        if c2 is Some {
            lemma_play_pairs_from_none(text_matches_view(c2->0));
        }
        if c3 is Some {
            lemma_play_pairs_from_none(text_matches_view(c3->0));
        }
        if c4 is Some {
            lemma_play_ids_from_none(text_matches_view(c4->0));
        }
    }
    let ms1 = match c1 {
        Some(ms) => ms,
        None => {
            return None;
        },
    };
    if !gather_pairs(&ms1, &mut seen, &mut res) {
        return None;
    }
    let ms2 = match c2 {
        Some(ms) => ms,
        None => {
            return None;
        },
    };
    if !gather_pairs(&ms2, &mut seen, &mut res) {
        return None;
    }
    let ms3 = match c3 {
        Some(ms) => ms,
        None => {
            return None;
        },
    };
    if !gather_pairs(&ms3, &mut seen, &mut res) {
        return None;
    }
    let ms4 = match c4 {
        Some(ms) => ms,
        None => {
            return None;
        },
    };
    if !gather_ids(&ms4, &mut seen, &mut res) {
        return None;
    }
    Some(res)
}

/// The matches of an optional match list.
pub open spec fn opt_matches(c: Option<Vec<Vec<Option<String>>>>) -> Option<
    Seq<Seq<Option<Seq<char>>>>,
> {
    match c {
        Some(v) => Some(text_matches_view(v)),
        None => None,
    }
}

/// Search results of a Google Play search page's text.
pub fn play_results_from_text(text: &str) -> (res: Option<Vec<(String, String)>>)
    ensures
        match res {
            Some(v) => play_results_of_text(text@) == Some(pairs_view(v)),
            None => play_results_of_text(text@) is None,
        },
{
    let c1 = find_captures(PLAY_LABEL_THEN_ID, text);
    let c2 = find_captures(PLAY_ID_THEN_LABEL, text);
    let c3 = find_captures(PLAY_TITLE_THEN_ID, text);
    let c4 = find_captures(PLAY_ID_ONLY, text);
    play_results_from_captures(c1, c2, c3, c4)
}

/// Search results of a Google Play search page's bytes (text that is not UTF-8 reads as empty).
pub fn play_results_from_page(html: &[u8]) -> (res: Option<Vec<(String, String)>>)
    ensures
        match res {
            Some(v) => play_results_of_text(text_of(html@)) == Some(pairs_view(v)),
            None => play_results_of_text(text_of(html@)) is None,
        },
{
    play_results_from_text(as_str(html))
}

// ---------------------------------------------------------------------------
// APKMirror versions
// ---------------------------------------------------------------------------

/// Links on an APKMirror page that lead to an app.
pub const APKMIRROR_APP_LINKS: &'static str = "a[href*='/apk/']";

/// A version link on an APKMirror app page, followed by the version's name.
pub const APKMIRROR_VERSION_LINK: &'static str = r#"href="(/apk/[^"]+)">\s*<div[^>]*>\s*([^<]+)"#;

/// The site that APKMirror's relative links point into.
pub open spec fn apkmirror_site() -> Seq<char> {
    "https://www.apkmirror.com"@
}

/// The package id with its dots turned into `sep`.
pub open spec fn dotted(pkg: Seq<char>, sep: char) -> Seq<char> {
    replace_char(pkg, '.', seq![sep])
}

/// APKMirror's search page for a package.
pub open spec fn apkmirror_search_url_spec(pkg: Seq<char>) -> Seq<char> {
    "https://www.apkmirror.com/?s="@ + dotted(pkg, '+')
}

/// The first link that mentions `slug`, made absolute.
pub open spec fn first_link_with(hrefs: Seq<Option<Seq<char>>>, slug: Seq<char>) -> Option<Seq<char>>
    decreases hrefs.len(),
{
    if hrefs.len() == 0 {
        None
    } else if hrefs[0] is Some && has_infix(hrefs[0]->0, slug) {
        Some(apkmirror_site() + hrefs[0]->0)
    } else {
        first_link_with(hrefs.drop_first(), slug)
    }
}

/// Page URLs already met, and the versions gathered so far.
pub type VersionState = (Seq<Seq<char>>, Seq<(Seq<char>, Seq<char>)>);

/// One version-link match. `None` where the match lacks a group.
pub open spec fn apkmirror_step(st: VersionState, m: Seq<Option<Seq<char>>>) -> Option<VersionState> {
    if m.len() < 3 || m[1] is None || m[2] is None {
        None
    } else {
        let url = apkmirror_site() + m[1]->0;
        let label = trim(m[2]->0);
        if st.0.contains(url) {
            Some(st)
        } else if label.len() > 0 {
            Some((st.0.push(url), st.1.push((label, url))))
        } else {
            Some((st.0.push(url), st.1))
        }
    }
}

/// All version-link matches, in order.
pub open spec fn apkmirror_fold(st: Option<VersionState>, ms: Seq<Seq<Option<Seq<char>>>>) -> Option<
    VersionState,
>
    decreases ms.len(),
{
    if ms.len() == 0 {
        st
    } else {
        match apkmirror_fold(st, ms.drop_last()) {
            Some(s) => apkmirror_step(s, ms.last()),
            None => None,
        }
    }
}

/// The versions listed by the matches of `APKMIRROR_VERSION_LINK` (`None` when the
/// pattern does not compile or a match lacks a group): each page once, first label kept.
pub open spec fn apkmirror_versions_spec(c: Option<Seq<Seq<Option<Seq<char>>>>>) -> Option<
    Seq<(Seq<char>, Seq<char>)>,
> {
    match c {
        Some(ms) => match apkmirror_fold(Some((Seq::empty(), Seq::empty())), ms) {
            Some(st) => Some(st.1),
            None => None,
        },
        None => None,
    }
}

/// APKMirror's search page for a package.
pub fn apkmirror_search_url(pkg: &str) -> (res: String)
    ensures
        res@ == apkmirror_search_url_spec(pkg@),
{
    let p = chars_of(pkg);
    let q = replace_char_with(&p, '.', "+");
    proof {
        reveal_strlit("+");
        assert("+"@ =~= seq!['+']);
    }
    let mut out: Vec<char> = Vec::new();
    push_str_chars(&mut out, "https://www.apkmirror.com/?s=");
    push_all(&mut out, &q);
    string_of(&out)
}

/// The package id with its dots turned into `-`, as sites write it in paths.
pub fn slug_of(pkg: &str) -> (res: Vec<char>)
    ensures
        res@ == dotted(pkg@, '-'),
{
    let p = chars_of(pkg);
    proof {
        reveal_strlit("-");
        assert("-"@ =~= seq!['-']);
    }
    replace_char_with(&p, '.', "-")
}

/// The absolute URL of the first link that mentions the package's slug.
pub fn apkmirror_app_url(hrefs: &Vec<Option<String>>, pkg: &str) -> (res: Option<String>)
    ensures
        match res {
            Some(u) => first_link_with(attrs_view(*hrefs), dotted(pkg@, '-')) == Some(u@),
            None => first_link_with(attrs_view(*hrefs), dotted(pkg@, '-')) is None,
        },
{
    let slug = slug_of(pkg);
    let ghost all = attrs_view(*hrefs);
    let mut i: usize = 0;
    assert(all.skip(0) =~= all);
    while i < hrefs.len()
        invariant
            0 <= i <= hrefs.len(),
            all == attrs_view(*hrefs),
            slug@ == dotted(pkg@, '-'),
            first_link_with(all, slug@) == first_link_with(all.skip(i as int), slug@),
        decreases hrefs.len() - i,
    {
        assert(all.skip(i as int)[0] == crate::scrape::opt_text(hrefs@[i as int]));
        assert(all.skip(i as int).drop_first() =~= all.skip(i + 1));
        match &hrefs[i] {
            Some(h) => {
                let hv = chars_of(h.as_str());
                if crate::text::contains_seq(&hv, &slug) {
                    let mut out: Vec<char> = Vec::new();
                    push_str_chars(&mut out, "https://www.apkmirror.com");
                    push_all(&mut out, &hv);
                    return Some(string_of(&out));
                }
            },
            None => {},
        }
        i = i + 1;
    }
    assert(all.skip(i as int).len() == 0);
    None
}

proof fn lemma_apkmirror_stuck(st: Option<VersionState>, ms: Seq<Seq<Option<Seq<char>>>>, k: int)
    requires
        0 <= k <= ms.len(),
        apkmirror_fold(st, ms.take(k)) is None,
    ensures
        apkmirror_fold(st, ms) is None,
    decreases ms.len() - k,
{
    if k < ms.len() {
        assert(ms.take(k + 1).drop_last() =~= ms.take(k));
        lemma_apkmirror_stuck(st, ms, k + 1);
    } else {
        assert(ms.take(k) =~= ms);
    }
}

/// Pushes a version.
fn push_version(res: &mut Vec<Version>, label: &Vec<char>, url: &Vec<char>)
    ensures
        versions_view(*final(res)) == versions_view(*old(res)).push((label@, url@)),
{
    let ghost before = versions_view(*res);
    res.push(Version { label: string_of(label), url: string_of(url) });
    assert(versions_view(*res) =~= before.push((label@, url@)));
}

/// The versions listed by the matches of `APKMIRROR_VERSION_LINK` on an app page.
pub fn apkmirror_versions_from_captures(c: Option<Vec<Vec<Option<String>>>>) -> (res: Option<
    Vec<Version>,
>)
    ensures
        match res {
            Some(v) => apkmirror_versions_spec(opt_matches(c)) == Some(versions_view(v)),
            None => apkmirror_versions_spec(opt_matches(c)) is None,
        },
{
    let ghost spec_c = opt_matches(c);
    let ms = match c {
        Some(ms) => ms,
        None => {
            return None;
        },
    };
    let mut seen: Vec<Vec<char>> = Vec::new();
    let mut res: Vec<Version> = Vec::new();
    let ghost start: Option<VersionState> = Some((Seq::empty(), Seq::empty()));
    let ghost all = text_matches_view(ms);
    assert(texts_view(seen) =~= Seq::<Seq<char>>::empty());
    assert(versions_view(res) =~= Seq::<(Seq<char>, Seq<char>)>::empty());
    assert(all.take(0) =~= Seq::<Seq<Option<Seq<char>>>>::empty());
    let mut i: usize = 0;
    while i < ms.len()
        invariant
            0 <= i <= ms.len(),
            all == text_matches_view(ms),
            spec_c == Some(all),
            spec_c == opt_matches(c),
            start == Some((Seq::<Seq<char>>::empty(), Seq::<(Seq<char>, Seq<char>)>::empty())),
            apkmirror_fold(start, all.take(i as int)) == Some((texts_view(seen), versions_view(res))),
        decreases ms.len() - i,
    {
        let m = &ms[i];
        assert(all.take(i + 1).drop_last() =~= all.take(i as int));
        assert(all.take(i + 1).last() == text_match_view(*m));
        let ghost mv = text_match_view(*m);
        assert(m@.len() > 1 ==> mv[1] == crate::scrape::opt_text(m@[1]));
        assert(m@.len() > 2 ==> mv[2] == crate::scrape::opt_text(m@[2]));
        let (g1, g2) = match (group_text(m, 1), group_text(m, 2)) {
            (Some(g1), Some(g2)) => (g1, g2),
            _ => {
                proof {
                    lemma_apkmirror_stuck(start, all, i + 1);
                }
                return None;
            },
        };
        let mut url: Vec<char> = Vec::new();
        push_str_chars(&mut url, "https://www.apkmirror.com");
        push_all(&mut url, &g1);
        let label = trim_chars(&g2);
        if !list_contains(&seen, &url) {
            if label.len() > 0 {
                push_version(&mut res, &label, &url);
            }
            list_push(&mut seen, url);
        }
        i = i + 1;
    }
    assert(all.take(ms.len() as int) =~= all);
    Some(res)
}

/// The versions listed on an APKMirror app page's bytes.
pub fn apkmirror_versions_from_page(html: &[u8]) -> (res: Option<Vec<Version>>)
    ensures
        match res {
            Some(v) => apkmirror_versions_spec(
                regex_captures(APKMIRROR_VERSION_LINK@, text_of(html@)),
            ) == Some(versions_view(v)),
            None => apkmirror_versions_spec(
                regex_captures(APKMIRROR_VERSION_LINK@, text_of(html@)),
            ) is None,
        },
{
    let c = find_captures(APKMIRROR_VERSION_LINK, as_str(html));
    apkmirror_versions_from_captures(c)
}

/// The app page that an APKMirror search page links to for `pkg`: `None` when the link
/// selector is not usable, `Some(None)` when no link mentions the package.
pub fn apkmirror_app_from_page(html: &[u8], pkg: &str) -> (res: Option<Option<String>>)
    ensures
        match res {
            None => html_select_attr(text_of(html@), APKMIRROR_APP_LINKS@, "href"@) is None,
            Some(found) => html_select_attr(text_of(html@), APKMIRROR_APP_LINKS@, "href"@) matches Some(
                hrefs,
            ) && match found {
                Some(u) => first_link_with(hrefs, dotted(pkg@, '-')) == Some(u@),
                None => first_link_with(hrefs, dotted(pkg@, '-')) is None,
            },
        },
{
    match select_attr(as_str(html), APKMIRROR_APP_LINKS, "href") {
        Some(hrefs) => Some(apkmirror_app_url(&hrefs, pkg)),
        None => None,
    }
}

// ---------------------------------------------------------------------------
// APKPure versions
// ---------------------------------------------------------------------------

/// Links on an APKPure page that lead to one version.
pub const APKPURE_VERSION_LINKS: &'static str = "a[href*='/version/']";

/// APKPure's page listing the old versions of a package.
pub open spec fn apkpure_versions_url_spec(pkg: Seq<char>) -> Seq<char> {
    "https://apkpure.com/"@ + dotted(pkg, '-') + "/old-versions"@
}

/// A link made absolute: kept when it starts with `http`, else put under APKPure's site.
pub open spec fn apkpure_absolute(h: Seq<char>) -> Seq<char> {
    if has_prefix(h, "http"@) {
        h
    } else {
        "https://apkpure.com"@ + h
    }
}

/// The label of a version link: its last path segment, with `-` turned into spaces.
pub open spec fn apkpure_label(h: Seq<char>) -> Seq<char> {
    replace_char(after_last(trim_end_char(h, '/'), '/'), '-', seq![' '])
}

/// One version link (a missing `href` reads as empty and is skipped).
pub open spec fn apkpure_step(st: VersionState, g: Option<Seq<char>>) -> VersionState {
    let h = match g {
        Some(h) => h,
        None => Seq::empty(),
    };
    if h.len() == 0 {
        st
    } else {
        let full = apkpure_absolute(h);
        if st.0.contains(full) {
            st
        } else {
            (st.0.push(full), st.1.push((apkpure_label(h), full)))
        }
    }
}

/// All version links, in order.
pub open spec fn apkpure_fold(st: VersionState, hrefs: Seq<Option<Seq<char>>>) -> VersionState
    decreases hrefs.len(),
{
    if hrefs.len() == 0 {
        st
    } else {
        apkpure_step(apkpure_fold(st, hrefs.drop_last()), hrefs.last())
    }
}

/// The versions that APKPure version links name: each page once, in order.
pub open spec fn apkpure_versions_spec(hrefs: Seq<Option<Seq<char>>>) -> Seq<(Seq<char>, Seq<char>)> {
    apkpure_fold((Seq::empty(), Seq::empty()), hrefs).1
}

/// APKPure's page listing the old versions of a package.
pub fn apkpure_versions_url(pkg: &str) -> (res: String)
    ensures
        res@ == apkpure_versions_url_spec(pkg@),
{
    let slug = slug_of(pkg);
    let mut out: Vec<char> = Vec::new();
    push_str_chars(&mut out, "https://apkpure.com/");
    push_all(&mut out, &slug);
    push_str_chars(&mut out, "/old-versions");
    string_of(&out)
}

/// A link made absolute under APKPure's site unless it starts with `http`.
pub fn apkpure_absolute_url(h: &Vec<char>) -> (res: Vec<char>)
    ensures
        res@ == apkpure_absolute(h@),
{
    if crate::text::starts_with_str(h, "http") {
        let mut out: Vec<char> = Vec::new();
        push_all(&mut out, h);
        assert(out@ =~= h@);
        out
    } else {
        let mut out: Vec<char> = Vec::new();
        push_str_chars(&mut out, "https://apkpure.com");
        push_all(&mut out, h);
        out
    }
}

/// The versions that a list of APKPure version links (their `href`s) name.
pub fn apkpure_versions_from_hrefs(hrefs: &Vec<Option<String>>) -> (res: Vec<Version>)
    ensures
        versions_view(res) == apkpure_versions_spec(attrs_view(*hrefs)),
{
    let ghost all = attrs_view(*hrefs);
    let ghost start: VersionState = (Seq::empty(), Seq::empty());
    let mut seen: Vec<Vec<char>> = Vec::new();
    let mut res: Vec<Version> = Vec::new();
    assert(texts_view(seen) =~= Seq::<Seq<char>>::empty());
    assert(versions_view(res) =~= Seq::<(Seq<char>, Seq<char>)>::empty());
    assert(all.take(0) =~= Seq::<Option<Seq<char>>>::empty());
    let mut i: usize = 0;
    while i < hrefs.len()
        invariant
            0 <= i <= hrefs.len(),
            all == attrs_view(*hrefs),
            start == (Seq::<Seq<char>>::empty(), Seq::<(Seq<char>, Seq<char>)>::empty()),
            apkpure_fold(start, all.take(i as int)) == (texts_view(seen), versions_view(res)),
        decreases hrefs.len() - i,
    {
        assert(all.take(i + 1).drop_last() =~= all.take(i as int));
        assert(all.take(i + 1).last() == crate::scrape::opt_text(hrefs@[i as int]));
        let h: Vec<char> = match &hrefs[i] {
            Some(h) => chars_of(h.as_str()),
            None => Vec::new(),
        };
        if h.len() > 0 {
            let full = apkpure_absolute_url(&h);
            if !list_contains(&seen, &full) {
                let t = trim_end_matching(&h, '/');
                let seg = after_last_char(&t, '/');
                let label = replace_char_with(&seg, '-', " ");
                proof {
                    reveal_strlit(" ");
                    assert(" "@ =~= seq![' ']);
                }
                push_version(&mut res, &label, &full);
                list_push(&mut seen, full);
            }
        }
        i = i + 1;
    }
    assert(all.take(hrefs.len() as int) =~= all);
    res
}

/// The versions listed on an APKPure old-versions page's bytes; `None` when the link
/// selector is not usable.
pub fn apkpure_versions_from_page(html: &[u8]) -> (res: Option<Vec<Version>>)
    ensures
        match res {
            Some(v) => html_select_attr(text_of(html@), APKPURE_VERSION_LINKS@, "href"@) matches Some(
                hrefs,
            ) && versions_view(v) == apkpure_versions_spec(hrefs),
            None => html_select_attr(text_of(html@), APKPURE_VERSION_LINKS@, "href"@) is None,
        },
{
    match select_attr(as_str(html), APKPURE_VERSION_LINKS, "href") {
        Some(hrefs) => Some(apkpure_versions_from_hrefs(&hrefs)),
        None => None,
    }
}

// ---------------------------------------------------------------------------
// Laws: each package, each version page, is listed once
// ---------------------------------------------------------------------------

/// No two entries share their second component (the package, or the page).
pub open spec fn seconds_distinct(r: Seq<(Seq<char>, Seq<char>)>) -> bool {
    forall|i: int, j: int| 0 <= i < j < r.len() ==> #[trigger] r[i].1 != #[trigger] r[j].1
}

/// Every entry's second component has been met, and none twice.
pub open spec fn state_inv(st: (Seq<Seq<char>>, Seq<(Seq<char>, Seq<char>)>)) -> bool {
    &&& seconds_distinct(st.1)
    &&& forall|i: int| 0 <= i < st.1.len() ==> st.0.contains(#[trigger] st.1[i].1)
}

/// Adding an entry whose second component was not met keeps the invariant.
proof fn lemma_inv_push(
    st: (Seq<Seq<char>>, Seq<(Seq<char>, Seq<char>)>),
    e: (Seq<char>, Seq<char>),
)
    requires
        state_inv(st),
        !st.0.contains(e.1),
    ensures
        state_inv((st.0.push(e.1), st.1.push(e))),
        state_inv((st.0.push(e.1), st.1)),
{
    let seen = st.0.push(e.1);
    let r = st.1.push(e);
    assert forall|i: int| 0 <= i < r.len() implies seen.contains(#[trigger] r[i].1) by {
        if i < st.1.len() {
            let k = choose|k: int| 0 <= k < st.0.len() && st.0[k] == st.1[i].1;
            assert(seen[k] == r[i].1);
        } else {
            assert(seen[st.0.len() as int] == e.1);
        }
    }
    assert forall|i: int, j: int| 0 <= i < j < r.len() implies #[trigger] r[i].1 != #[trigger] r[j].1 by {
        if j == st.1.len() {
            if r[i].1 == r[j].1 {
                assert(st.0.contains(st.1[i].1));
            }
        } else {
            assert(st.1[i].1 != st.1[j].1);
        }
    }
    assert forall|i: int| 0 <= i < st.1.len() implies seen.contains(#[trigger] st.1[i].1) by {
        let k = choose|k: int| 0 <= k < st.0.len() && st.0[k] == st.1[i].1;
        assert(seen[k] == st.1[i].1);
    }
}

proof fn lemma_play_pairs_inv(st: Option<PlayState>, ms: Seq<Seq<Option<Seq<char>>>>)
    requires
        st matches Some(s) ==> state_inv(s),
    ensures
        play_pairs(st, ms) matches Some(s) ==> state_inv(s),
    decreases ms.len(),
{
    if ms.len() > 0 {
        lemma_play_pairs_inv(st, ms.drop_last());
        if let Some(s) = play_pairs(st, ms.drop_last()) {
            let m = ms.last();
            if !(m.len() < 3 || m[1] is None || m[2] is None) {
                let a = trim(m[1]->0);
                let b = trim(m[2]->0);
                let t = if !b.contains('.') && a.contains('.') { b } else { a };
                let p = if !b.contains('.') && a.contains('.') { a } else { b };
                if !s.0.contains(p) {
                    lemma_inv_push(s, (t, p));
                }
            }
        }
    }
}

proof fn lemma_play_ids_inv(st: Option<PlayState>, ms: Seq<Seq<Option<Seq<char>>>>)
    requires
        st matches Some(s) ==> state_inv(s),
    ensures
        play_ids(st, ms) matches Some(s) ==> state_inv(s),
    decreases ms.len(),
{
    if ms.len() > 0 {
        lemma_play_ids_inv(st, ms.drop_last());
        if let Some(s) = play_ids(st, ms.drop_last()) {
            let m = ms.last();
            if !(m.len() < 2 || m[1] is None) {
                let p = trim(m[1]->0);
                if !s.0.contains(p) {
                    if let Some(t) = package_title(p) {
                        lemma_inv_push(s, (t, p));
                    }
                }
            }
        }
    }
}

/// A store link whose id group holds a dot gives the result (label, id), both trimmed: the
/// label is the title and the id the package. Met for a package not seen before, it adds
/// exactly that result (or only notes the package, when the label is blank); met again, it
/// changes nothing.
pub proof fn law_dotted_id_is_the_package(
    st: PlayState,
    ms: Seq<Seq<Option<Seq<char>>>>,
    m: Seq<Option<Seq<char>>>,
    label: Seq<char>,
    id: Seq<char>,
)
    requires
        m.len() >= 3,
        m[1] == Some(label),
        m[2] == Some(id),
        trim(id).contains('.'),
    ensures
        play_pairs(Some(st), ms) matches Some(s) ==> {
            let after = play_pairs(Some(st), ms.push(m));
            &&& (!s.0.contains(trim(id)) && trim(label).len() > 0) ==> after == Some(
                (s.0.push(trim(id)), s.1.push((trim(label), trim(id)))),
            )
            &&& (!s.0.contains(trim(id)) && trim(label).len() == 0) ==> after == Some(
                (s.0.push(trim(id)), s.1),
            )
            &&& s.0.contains(trim(id)) ==> after == Some(s)
        },
{
    assert(ms.push(m).drop_last() =~= ms);
}

/// A page whose only store link reads `aria-label="{label}" ... href="/store/apps/details?id={id}"`,
/// with a dot in the id and a label that is not blank, gives the one result (label, id), both
/// trimmed.
pub proof fn law_single_label_then_id_link(
    m: Seq<Option<Seq<char>>>,
    label: Seq<char>,
    id: Seq<char>,
)
    requires
        m.len() >= 3,
        m[1] == Some(label),
        m[2] == Some(id),
        trim(id).contains('.'),
        trim(label).len() > 0,
    ensures
        play_results_spec(
            Some(seq![m]),
            Some(Seq::empty()),
            Some(Seq::empty()),
            Some(Seq::empty()),
        ) == Some(seq![(trim(label), trim(id))]),
{
    let s0: PlayState = (Seq::empty(), Seq::empty());
    let e: Seq<Seq<Option<Seq<char>>>> = Seq::empty();
    assert(seq![m] =~= e.push(m));
    law_dotted_id_is_the_package(s0, e, m, label, id);
    assert(seq![(trim(label), trim(id))] =~= s0.1.push((trim(label), trim(id))));
}

/// Search results list every package at most once, whatever the page holds.
pub proof fn law_play_results_distinct(
    c1: Option<Seq<Seq<Option<Seq<char>>>>>,
    c2: Option<Seq<Seq<Option<Seq<char>>>>>,
    c3: Option<Seq<Seq<Option<Seq<char>>>>>,
    c4: Option<Seq<Seq<Option<Seq<char>>>>>,
)
    ensures
        play_results_spec(c1, c2, c3, c4) matches Some(r) ==> seconds_distinct(r),
{
    let s0: Option<PlayState> = Some((Seq::empty(), Seq::empty()));
    let s1 = match c1 {
        Some(ms) => play_pairs(s0, ms),
        None => None,
    };
    let s2 = match c2 {
        Some(ms) => play_pairs(s1, ms),
        None => None,
    };
    let s3 = match c3 {
        Some(ms) => play_pairs(s2, ms),
        None => None,
    };
    if let Some(ms) = c1 {
        lemma_play_pairs_inv(s0, ms);
    }
    if let Some(ms) = c2 {
        lemma_play_pairs_inv(s1, ms);
    }
    if let Some(ms) = c3 {
        lemma_play_pairs_inv(s2, ms);
    }
    if let Some(ms) = c4 {
        lemma_play_ids_inv(s3, ms);
    }
}

proof fn lemma_apkmirror_inv(st: Option<VersionState>, ms: Seq<Seq<Option<Seq<char>>>>)
    requires
        st matches Some(s) ==> state_inv(s),
    ensures
        apkmirror_fold(st, ms) matches Some(s) ==> state_inv(s),
    decreases ms.len(),
{
    if ms.len() > 0 {
        lemma_apkmirror_inv(st, ms.drop_last());
        if let Some(s) = apkmirror_fold(st, ms.drop_last()) {
            let m = ms.last();
            if !(m.len() < 3 || m[1] is None || m[2] is None) {
                let url = apkmirror_site() + m[1]->0;
                if !s.0.contains(url) {
                    lemma_inv_push(s, (trim(m[2]->0), url));
                }
            }
        }
    }
}

/// APKMirror version lists name every page at most once.
pub proof fn law_apkmirror_versions_distinct(c: Option<Seq<Seq<Option<Seq<char>>>>>)
    ensures
        apkmirror_versions_spec(c) matches Some(r) ==> seconds_distinct(r),
{
    if let Some(ms) = c {
        lemma_apkmirror_inv(Some((Seq::empty(), Seq::empty())), ms);
    }
}

proof fn lemma_apkpure_inv(st: VersionState, hrefs: Seq<Option<Seq<char>>>)
    requires
        state_inv(st),
    ensures
        state_inv(apkpure_fold(st, hrefs)),
    decreases hrefs.len(),
{
    if hrefs.len() > 0 {
        lemma_apkpure_inv(st, hrefs.drop_last());
        let s = apkpure_fold(st, hrefs.drop_last());
        let h = match hrefs.last() {
            Some(h) => h,
            None => Seq::empty(),
        };
        if h.len() > 0 && !s.0.contains(apkpure_absolute(h)) {
            lemma_inv_push(s, (apkpure_label(h), apkpure_absolute(h)));
        }
    }
}

/// APKPure version lists name every page at most once.
pub proof fn law_apkpure_versions_distinct(hrefs: Seq<Option<Seq<char>>>)
    ensures
        seconds_distinct(apkpure_versions_spec(hrefs)),
{
    lemma_apkpure_inv((Seq::empty(), Seq::empty()), hrefs);
}

} // verus!
