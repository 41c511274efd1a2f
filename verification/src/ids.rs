//! Finding a MangaDex manga id in what the user typed.

use vstd::prelude::*;
use vstd::string::*;
use crate::text::str_eq;

verus! {

/// Text of capture group `group` of the first match of regular expression `pattern` in
/// `text`, as the `regex` crate finds it; `None` when the pattern does not compile, does
/// not match, or the group takes no part in the match.
pub uninterp spec fn regex_capture(pattern: Seq<char>, text: Seq<char>, group: nat) -> Option<
    Seq<char>,
>;

/// Whether `uuid::Uuid::parse_str` accepts the text.
pub uninterp spec fn uuid_accepts(text: Seq<char>) -> bool;

/// Calls `regex::Regex::new(pattern)`, then `captures(text)` and `get(group)`; the
/// contract claims only that the result is [`regex_capture`] of the arguments.
#[verifier::external_body]
fn regex_first_capture(pattern: &str, text: &str, group: usize) -> (r: Option<String>)
    ensures
        match r {
            Some(s) => regex_capture(pattern@, text@, group as nat) == Some(s@),
            None => regex_capture(pattern@, text@, group as nat) is None,
        },
{
    let re = match regex::Regex::new(pattern) {
        Ok(re) => re,
        Err(_) => return None,
    };
    match re.captures(text) {
        Some(caps) => match caps.get(group) {
            Some(m) => Some(m.as_str().to_string()),
            None => None,
        },
        None => None,
    }
}

/// Calls `uuid::Uuid::parse_str`; the contract claims only that the result is
/// [`uuid_accepts`] of the text.
#[verifier::external_body]
fn uuid_parses(text: &str) -> (r: bool)
    ensures
        r == uuid_accepts(text@),
{
    match uuid::Uuid::parse_str(text) {
        Ok(_) => true,
        Err(_) => false,
    }
}

/// Pattern of a MangaDex title address; group 1 is the id.
pub open spec fn title_url_pattern() -> Seq<char> {
    "https://mangadex.org/title/([\\w-]+)/?"@
}

/// The id in the first MangaDex title address found in `cap`.
pub fn resolve_regex(cap: &str) -> (r: Option<String>)
    ensures
        match r {
            Some(s) => regex_capture(title_url_pattern(), cap@, 1) == Some(s@),
            None => regex_capture(title_url_pattern(), cap@, 1) is None,
        },
{
    regex_first_capture("https://mangadex.org/title/([\\w-]+)/?", cap, 1)
}

/// Whether the text is a UUID.
pub fn is_valid_uuid(s: &str) -> (r: bool)
    ensures
        r == uuid_accepts(s@),
{
    uuid_parses(s)
}

/// Where the id of the manga to download comes from.
#[derive(Debug, Clone, PartialEq, Eq)]
pub enum IdSource {
    /// A title search decides the id.
    Search,
    /// The id found in a title address.
    Captured(String),
    /// A title address whose id is not a UUID.
    BadCapture(String),
    /// The argument is the id itself.
    Uuid(String),
    /// No address was given.
    Unspecified,
    /// The argument is neither an address nor an id.
    BadUrl,
}

/// The id source for the given argument values and the outcomes of the address pattern
/// and of the UUID checks.
pub open spec fn id_source_spec(
    search_default: bool,
    capture: Option<Seq<char>>,
    capture_is_uuid: bool,
    url: Seq<char>,
    url_is_uuid: bool,
) -> IdSourceView {
    if !search_default {
        IdSourceView::Search
    } else {
        match capture {
            Some(c) => if capture_is_uuid {
                IdSourceView::Captured(c)
            } else {
                IdSourceView::BadCapture(c)
            },
            None => if url_is_uuid {
                IdSourceView::Uuid(url)
            } else if url == "UNSPECIFIED"@ {
                IdSourceView::Unspecified
            } else {
                IdSourceView::BadUrl
            },
        }
    }
}

/// Mathematical form of [`IdSource`].
pub enum IdSourceView {
    Search,
    Captured(Seq<char>),
    BadCapture(Seq<char>),
    Uuid(Seq<char>),
    Unspecified,
    BadUrl,
}

impl View for IdSource {
    type V = IdSourceView;

    open spec fn view(&self) -> IdSourceView {
        match self {
            IdSource::Search => IdSourceView::Search,
            IdSource::Captured(s) => IdSourceView::Captured(s@),
            IdSource::BadCapture(s) => IdSourceView::BadCapture(s@),
            IdSource::Uuid(s) => IdSourceView::Uuid(s@),
            IdSource::Unspecified => IdSourceView::Unspecified,
            IdSource::BadUrl => IdSourceView::BadUrl,
        }
    }
}

/// Decides the id source: a search when `--search` was given, else the id of a title
/// address (if it is a UUID), else the argument itself when it is a UUID.
pub fn decide_id_source(
    search_default: bool,
    capture: Option<String>,
    capture_is_uuid: bool,
    url: &str,
    url_is_uuid: bool,
) -> (r: IdSource)
    ensures
        r@ == id_source_spec(
            search_default,
            match capture {
                Some(c) => Some(c@),
                None => None,
            },
            capture_is_uuid,
            url@,
            url_is_uuid,
        ),
{
    if !search_default {
        IdSource::Search
    } else {
        match capture {
            Some(c) => if capture_is_uuid {
                IdSource::Captured(c)
            } else {
                IdSource::BadCapture(c)
            },
            None => if url_is_uuid {
                IdSource::Uuid(String::from_str(url))
            } else if str_eq(url, "UNSPECIFIED") {
                IdSource::Unspecified
            } else {
                IdSource::BadUrl
            },
        }
    }
}

/// Finds where the manga id comes from, given the `--url` and `--search` arguments.
pub fn resolve_id_source(url: &str, search: &str) -> (r: IdSource)
    ensures
        search@ != "*"@ ==> r@ == IdSourceView::Search,
        search@ == "*"@ ==> match regex_capture(title_url_pattern(), url@, 1) {
            Some(c) => r@ == (if uuid_accepts(c) {
                IdSourceView::Captured(c)
            } else {
                IdSourceView::BadCapture(c)
            }),
            None => r@ == (if uuid_accepts(url@) {
                IdSourceView::Uuid(url@)
            } else if url@ == "UNSPECIFIED"@ {
                IdSourceView::Unspecified
            } else {
                IdSourceView::BadUrl
            }),
        },
{
    let search_default = str_eq(search, "*");
    let capture = resolve_regex(url);
    let capture_is_uuid = match &capture {
        Some(c) => is_valid_uuid(c.as_str()),
        None => false,
    };
    let url_is_uuid = is_valid_uuid(url);
    decide_id_source(search_default, capture, capture_is_uuid, url, url_is_uuid)
}

/// The id for a request of the web interface: the id of a title address, else the text
/// itself when it is a UUID.
pub fn web_manga_id(url: &str) -> (r: Option<String>)
    ensures
        match regex_capture(title_url_pattern(), url@, 1) {
            Some(c) => r matches Some(s) && s@ == c,
            None => if uuid_accepts(url@) {
                r matches Some(s) && s@ == url@
            } else {
                r is None
            },
        },
{
    match resolve_regex(url) {
        Some(id) => Some(id),
        None => if is_valid_uuid(url) {
            Some(String::from_str(url))
        } else {
            None
        },
    }
}

} // verus!
