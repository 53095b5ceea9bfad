//! The two pattern engines that web pages are read with: regular expressions (`regex`)
//! and CSS selection over parsed HTML (`scraper`). Their results are named, not restated.

use vstd::prelude::*;

verus! {

/// One regular-expression match: the text of each capture group, group 0 being the whole
/// match; `None` for a group that did not take part in the match.
pub open spec fn text_match_view(m: Vec<Option<String>>) -> Seq<Option<Seq<char>>> {
    m@.map_values(|g: Option<String>| opt_text(g))
}

/// The text of an optional string.
pub open spec fn opt_text(g: Option<String>) -> Option<Seq<char>> {
    match g {
        Some(s) => Some(s@),
        None => None,
    }
}

/// All matches, in the order in which they occur.
pub open spec fn text_matches_view(v: Vec<Vec<Option<String>>>) -> Seq<Seq<Option<Seq<char>>>> {
    v@.map_values(|m: Vec<Option<String>>| text_match_view(m))
}

/// Byte-level matches, as above.
pub open spec fn byte_match_view(m: Vec<Option<Vec<u8>>>) -> Seq<Option<Seq<u8>>> {
    m@.map_values(|g: Option<Vec<u8>>| opt_bytes(g))
}

/// The bytes of an optional byte vector.
pub open spec fn opt_bytes(g: Option<Vec<u8>>) -> Option<Seq<u8>> {
    match g {
        Some(b) => Some(b@),
        None => None,
    }
}

/// All byte-level matches, in order.
pub open spec fn byte_matches_view(v: Vec<Vec<Option<Vec<u8>>>>) -> Seq<Seq<Option<Seq<u8>>>> {
    v@.map_values(|m: Vec<Option<Vec<u8>>>| byte_match_view(m))
}

/// The values of an attribute over a list of selected elements.
pub open spec fn attrs_view(v: Vec<Option<String>>) -> Seq<Option<Seq<char>>> {
    v@.map_values(|g: Option<String>| opt_text(g))
}

/// What `regex::Regex::new(pattern)` followed by `captures_iter(text)` yields: `None` when the
/// pattern does not compile, else the capture groups of every non-overlapping match, left to right.
pub uninterp spec fn regex_captures(pattern: Seq<char>, text: Seq<char>) -> Option<
    Seq<Seq<Option<Seq<char>>>>,
>;

/// The same for `regex::bytes::Regex` over a byte haystack.
pub uninterp spec fn regex_byte_captures(pattern: Seq<char>, haystack: Seq<u8>) -> Option<
    Seq<Seq<Option<Seq<u8>>>>,
>;

/// What `scraper::Html::parse_document(html)`, `scraper::Selector::parse(selector)` and
/// `select` followed by `value().attr(attr)` yield: `None` when the selector does not parse,
/// else the attribute of every selected element, in document order.
pub uninterp spec fn html_select_attr(html: Seq<char>, selector: Seq<char>, attr: Seq<char>) -> Option<
    Seq<Option<Seq<char>>>,
>;

/// Runs `regex::Regex::new` and `Regex::captures_iter`. The contract only names the result:
/// it is the same for the same pattern and text; nothing else is claimed of it.
#[verifier::external_body]
pub(crate) fn find_captures(pattern: &str, text: &str) -> (res: Option<Vec<Vec<Option<String>>>>)
    ensures
        match res {
            Some(v) => regex_captures(pattern@, text@) == Some(text_matches_view(v)),
            None => regex_captures(pattern@, text@) is None,
        },
{
    match regex::Regex::new(pattern) {
        Ok(re) => Some(
            re.captures_iter(text).map(
                |c| c.iter().map(|g| g.map(|m| m.as_str().to_string())).collect(),
            ).collect(),
        ),
        Err(_) => None,
    }
}

/// Runs `regex::bytes::Regex::new` and `captures_iter` over bytes; only the result is named.
#[verifier::external_body]
pub(crate) fn find_byte_captures(pattern: &str, haystack: &[u8]) -> (res: Option<Vec<Vec<Option<Vec<u8>>>>>)
    ensures
        match res {
            Some(v) => regex_byte_captures(pattern@, haystack@) == Some(byte_matches_view(v)),
            None => regex_byte_captures(pattern@, haystack@) is None,
        },
{
    match regex::bytes::Regex::new(pattern) {
        Ok(re) => Some(
            re.captures_iter(haystack).map(
                |c| c.iter().map(|g| g.map(|m| m.as_bytes().to_vec())).collect(),
            ).collect(),
        ),
        Err(_) => None,
    }
}

/// Runs `scraper::Html::parse_document`, `Selector::parse`, `Html::select` and
/// `Element::attr`; only the result is named.
#[verifier::external_body]
pub(crate) fn select_attr(html: &str, selector: &str, attr: &str) -> (res: Option<Vec<Option<String>>>)
    ensures
        match res {
            Some(v) => html_select_attr(html@, selector@, attr@) == Some(attrs_view(v)),
            None => html_select_attr(html@, selector@, attr@) is None,
        },
{
    let doc = scraper::Html::parse_document(html);
    match scraper::Selector::parse(selector) {
        Ok(sel) => Some(doc.select(&sel).map(|e| e.value().attr(attr).map(|s| s.to_string())).collect()),
        Err(_) => None,
    }
}

} // verus!
