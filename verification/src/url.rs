use vstd::prelude::*;

use crate::strings::opt_view;

verus! {

/// The contents of a list of strings.
pub open spec fn strings_view(s: Seq<String>) -> Seq<Seq<char>> {
    s.map_values(|x: String| x@)
}

/// The contents of a list of string pairs.
pub open spec fn pairs_view(s: Seq<(String, String)>) -> Seq<(Seq<char>, Seq<char>)> {
    s.map_values(|p: (String, String)| (p.0@, p.1@))
}

/// The serialization of the URL that `url::Url::parse` makes of a text, or
/// `None` where it fails.
pub uninterp spec fn spec_url_serialization(text: Seq<char>) -> Option<Seq<char>>;

/// Whether a text parses as a URL that is not cannot-be-a-base (it has a
/// hierarchical path).
pub uninterp spec fn spec_url_is_base(text: Seq<char>) -> bool;

/// The percent-decoded query pairs of a parsed URL, as `Url::query_pairs` gives them.
pub uninterp spec fn spec_url_query_pairs(text: Seq<char>) -> Option<Seq<(Seq<char>, Seq<char>)>>;

/// The path segments of a parsed URL, as `Url::path_segments` gives them;
/// the inner `None` is a URL whose path does not start with a slash: a
/// cannot-be-a-base URL, or one with a host and an empty path.
pub uninterp spec fn spec_url_path_segments(text: Seq<char>) -> Option<Option<Seq<Seq<char>>>>;

/// A parsed URL with its query removed by `Url::set_query(None)`.
pub uninterp spec fn spec_url_without_query(text: Seq<char>) -> Option<Seq<char>>;

/// A parsed URL with its fragment removed by `Url::set_fragment(None)`.
pub uninterp spec fn spec_url_without_fragment(text: Seq<char>) -> Option<Seq<char>>;

/// A parsed URL whose path segments are cleared and replaced, through
/// `Url::path_segments_mut`; the inner `None` is a cannot-be-a-base URL.
pub uninterp spec fn spec_url_replace_path(text: Seq<char>, segments: Seq<Seq<char>>) -> Option<
    Option<Seq<char>>,
>;

/// A parsed URL whose trailing empty path segment, if any, is removed and to
/// whose path segments are appended, through `Url::path_segments_mut`.
pub uninterp spec fn spec_url_push_path(text: Seq<char>, segments: Seq<Seq<char>>) -> Option<
    Option<Seq<char>>,
>;

/// A parsed URL with pairs appended to its query through `Url::query_pairs_mut`.
pub uninterp spec fn spec_url_append_pairs(text: Seq<char>, pairs: Seq<(Seq<char>, Seq<char>)>) -> Option<
    Seq<char>,
>;

/// The percent-encoded query of a parsed URL, as `Url::query` gives it.
pub uninterp spec fn spec_url_query(text: Seq<char>) -> Option<Option<Seq<char>>>;

/// Whether a character is whitespace as `char::is_whitespace` decides.
pub uninterp spec fn spec_is_whitespace(c: char) -> bool;

/// Calls `url::Url::parse` and gives the serialization of the URL it parsed.
/// A serialization parses again to itself: the URL standard makes
/// serializing and parsing idempotent, and the crate's own consistency check
/// (`Url::check_invariants`, a testing aid) asserts it.
#[verifier::external_body]
pub(crate) fn url_serialization(text: &str) -> (r: Option<String>)
    ensures
        opt_view(r) == spec_url_serialization(text@),
        r matches Some(s) ==> spec_url_serialization(s@) == Some(s@),
{
    url::Url::parse(text).ok().map(|u| u.to_string())
}

/// Calls `url::Url::cannot_be_a_base` on the parsed text: true when the text
/// parses and the URL has a hierarchical path.
#[verifier::external_body]
pub(crate) fn url_is_base(text: &str) -> (r: bool)
    ensures
        r == spec_url_is_base(text@),
        r ==> spec_url_serialization(text@) is Some,
{
    match url::Url::parse(text) {
        Ok(u) => !u.cannot_be_a_base(),
        Err(_) => false,
    }
}

/// Calls `url::Url::query_pairs` on the parsed text.
#[verifier::external_body]
pub(crate) fn url_query_pairs(text: &str) -> (r: Option<Vec<(String, String)>>)
    ensures
        match r {
            Some(v) => spec_url_query_pairs(text@) == Some(pairs_view(v@)),
            None => spec_url_query_pairs(text@) is None,
        },
        r is Some <==> spec_url_serialization(text@) is Some,
{
    url::Url::parse(text).ok().map(
        |u| u.query_pairs().map(|(k, v)| (k.into_owned(), v.into_owned())).collect(),
    )
}

/// Calls `url::Url::path_segments` on the parsed text; where it gives
/// segments there is at least one, which may be empty, and the URL can be a
/// base. A base URL with an empty path (`foo://host`) gives no segments.
#[verifier::external_body]
pub(crate) fn url_path_segments(text: &str) -> (r: Option<Option<Vec<String>>>)
    ensures
        match r {
            Some(Some(v)) => spec_url_path_segments(text@) == Some(Some(strings_view(v@))),
            Some(None) => spec_url_path_segments(text@) == Some(None::<Seq<Seq<char>>>),
            None => spec_url_path_segments(text@) is None,
        },
        r is Some <==> spec_url_serialization(text@) is Some,
        r matches Some(Some(_)) ==> spec_url_is_base(text@),
        r matches Some(Some(v)) ==> v@.len() >= 1,
{
    url::Url::parse(text).ok().map(|u| u.path_segments().map(|s| s.map(String::from).collect()))
}

/// Calls `url::Url::set_query(None)` on the parsed text.
#[verifier::external_body]
pub(crate) fn url_without_query(text: &str) -> (r: Option<String>)
    ensures
        opt_view(r) == spec_url_without_query(text@),
        r is Some <==> spec_url_serialization(text@) is Some,
        r matches Some(t) ==> spec_url_serialization(t@) == Some(t@),
{
    url::Url::parse(text).ok().map(
        |mut u| {
            u.set_query(None);
            u.to_string()
        },
    )
}

/// Calls `url::Url::set_fragment(None)` on the parsed text.
#[verifier::external_body]
pub(crate) fn url_without_fragment(text: &str) -> (r: Option<String>)
    ensures
        opt_view(r) == spec_url_without_fragment(text@),
        r is Some <==> spec_url_serialization(text@) is Some,
        r matches Some(t) ==> spec_url_serialization(t@) == Some(t@),
{
    url::Url::parse(text).ok().map(
        |mut u| {
            u.set_fragment(None);
            u.to_string()
        },
    )
}

/// Replaces the path segments of the parsed text through
/// `url::Url::path_segments_mut` (`clear`, then `extend`). Nothing is stated
/// of parsing the edited serialization again: for a URL without a host, a
/// path that now starts with `//` reads back as a host.
#[verifier::external_body]
pub(crate) fn url_replace_path(text: &str, segments: &Vec<String>) -> (r: Option<Option<String>>)
    ensures
        match r {
            Some(v) => spec_url_replace_path(text@, strings_view(segments@)) == Some(opt_view(v)),
            None => spec_url_replace_path(text@, strings_view(segments@)) is None,
        },
        r is Some <==> spec_url_serialization(text@) is Some,
        spec_url_is_base(text@) <==> r matches Some(Some(_)),
{
    url::Url::parse(text).ok().map(
        |mut u| {
            let done = u.path_segments_mut().map(
                |mut p| {
                    p.clear().extend(segments.iter());
                },
            );
            done.ok().map(|_| u.to_string())
        },
    )
}

/// Appends path segments to the parsed text through
/// `url::Url::path_segments_mut` (`pop_if_empty`, then `extend`); a URL with a
/// hierarchical path always accepts them, as `path_segments_mut` fails only
/// for cannot-be-a-base URLs. The edited serialization parses again: the
/// edit only appends percent-encoded segments to the path (`extend` skips
/// `.` and `..`, and `pop_if_empty` keeps the path's first slash), while the
/// scheme, host and port, the only parts whose parsing can fail, stay as
/// they were parsed. It need not parse back to itself: for a URL without a
/// host whose path starts with `//`, the parser's `/.` prefix is not redone.
#[verifier::external_body]
pub(crate) fn url_push_path(text: &str, segments: &Vec<String>) -> (r: Option<Option<String>>)
    ensures
        match r {
            Some(v) => spec_url_push_path(text@, strings_view(segments@)) == Some(opt_view(v)),
            None => spec_url_push_path(text@, strings_view(segments@)) is None,
        },
        spec_url_is_base(text@) <==> r matches Some(Some(_)),
        r is Some <==> spec_url_serialization(text@) is Some,
        r matches Some(Some(t)) ==> spec_url_serialization(t@) is Some,
{
    url::Url::parse(text).ok().map(
        |mut u| {
            let done = u.path_segments_mut().map(
                |mut p| {
                    p.pop_if_empty().extend(segments.iter());
                },
            );
            done.ok().map(|_| u.to_string())
        },
    )
}

/// Appends pairs to the query of the parsed text through
/// `url::Url::query_pairs_mut` (`extend_pairs`); a URL without a query gets
/// an empty one first.
#[verifier::external_body]
pub(crate) fn url_append_pairs(text: &str, pairs: &Vec<(String, String)>) -> (r: Option<String>)
    ensures
        opt_view(r) == spec_url_append_pairs(text@, pairs_view(pairs@)),
        r is Some <==> spec_url_serialization(text@) is Some,
        r matches Some(t) ==> spec_url_serialization(t@) == Some(t@),
{
    url::Url::parse(text).ok().map(
        |mut u| {
            u.query_pairs_mut().extend_pairs(pairs.iter());
            u.to_string()
        },
    )
}

/// Calls `url::Url::query` on the parsed text.
#[verifier::external_body]
pub(crate) fn url_query(text: &str) -> (r: Option<Option<String>>)
    ensures
        match r {
            Some(q) => spec_url_query(text@) == Some(opt_view(q)),
            None => spec_url_query(text@) is None,
        },
        r is Some <==> spec_url_serialization(text@) is Some,
{
    url::Url::parse(text).ok().map(|u| u.query().map(String::from))
}

/// Calls `char::is_whitespace`.
#[verifier::external_body]
pub(crate) fn char_is_whitespace(c: char) -> (r: bool)
    ensures
        r == spec_is_whitespace(c),
{
    c.is_whitespace()
}

/// Whether a text holds only whitespace, as `str::trim` leaves it empty.
pub open spec fn is_blank(s: Seq<char>) -> bool {
    forall|i: int| 0 <= i < s.len() ==> spec_is_whitespace(#[trigger] s[i])
}

/// Whether a text is empty once trimmed of whitespace.
pub fn blank(s: &str) -> (r: bool)
    ensures
        r == is_blank(s@),
{
    let n = s.unicode_len();
    let mut i: usize = 0;
    while i < n
        invariant
            0 <= i <= n,
            n == s@.len(),
            forall|j: int| 0 <= j < i ==> spec_is_whitespace(#[trigger] s@[j]),
        decreases n - i,
    {
        if !char_is_whitespace(s.get_char(i)) {
            return false;
        }
        i = i + 1;
    }
    true
}

/// The base URL of a package repository: a text that parses as a URL with a
/// hierarchical path, held in its serialized form.
#[derive(Debug)]
pub struct RepoUrl {
    text: String,
}

/// Why a text is not a repository URL.
#[derive(Debug, Clone, Copy, PartialEq, Eq, Structural)]
pub enum RepoUrlError {
    InvalidUrl,
    CannotBeABase,
}

impl View for RepoUrl {
    type V = Seq<char>;

    closed spec fn view(&self) -> Seq<char> {
        self.text@
    }
}

impl RepoUrl {
    #[verifier::type_invariant]
    spec fn is_base(&self) -> bool {
        spec_url_is_base(self.text@) && spec_url_serialization(self.text@) == Some(self.text@)
    }

    /// Accepts a text as a repository URL, in its serialized form.
    pub fn new(text: &str) -> (r: Result<RepoUrl, RepoUrlError>)
        ensures
            match r {
                Ok(u) => spec_url_serialization(text@) == Some(u@) && spec_url_is_base(u@)
                    && spec_url_serialization(u@) == Some(u@),
                Err(RepoUrlError::InvalidUrl) => spec_url_serialization(text@) is None,
                Err(RepoUrlError::CannotBeABase) => spec_url_serialization(text@) matches Some(s)
                    && !spec_url_is_base(s),
            },
    {
        match url_serialization(text) {
            None => Err(RepoUrlError::InvalidUrl),
            Some(s) => {
                if url_is_base(s.as_str()) {
                    Ok(RepoUrl { text: s })
                } else {
                    Err(RepoUrlError::CannotBeABase)
                }
            },
        }
    }

    /// The serialized URL.
    pub fn as_str(&self) -> (r: &str)
        ensures
            r@ == self@,
            spec_url_is_base(r@),
            spec_url_serialization(r@) == Some(r@),
    {
        proof {
            use_type_invariant(self);
        }
        self.text.as_str()
    }

    /// Compares two repository URLs by their serialization.
    pub fn same_as(&self, other: &RepoUrl) -> (r: bool)
        ensures
            r == (self@ == other@),
    {
        self.text.eq(&other.text)
    }

    /// Copies the URL.
    pub fn copy(&self) -> (r: RepoUrl)
        ensures
            r@ == self@,
    {
        proof {
            use_type_invariant(self);
        }
        RepoUrl { text: self.text.clone() }
    }
}

} // verus!
