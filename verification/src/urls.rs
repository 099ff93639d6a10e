//! URLs, through the `url` crate: what parsing a URL gives, and the URLs
//! that setting a path, pushing path segments or joining a reference make.
use vstd::prelude::*;

use crate::text::string_views;

verus! {

/// The components of a parsed URL: scheme, username, password, host, path,
/// query, fragment, and the URL's serialization.
#[derive(Debug, Clone)]
pub struct UrlParts {
    pub scheme: String,
    pub username: String,
    pub password: Option<String>,
    pub host: Option<String>,
    pub path: String,
    pub query: Option<String>,
    pub fragment: Option<String>,
    pub serialization: String,
}

pub open spec fn opt_view(o: Option<String>) -> Option<Seq<char>> {
    match o {
        Some(s) => Some(s@),
        None => None,
    }
}

/// The components of a URL as plain values.
pub type UrlPartsView = (
    Seq<char>,
    Seq<char>,
    Option<Seq<char>>,
    Option<Seq<char>>,
    Seq<char>,
    Option<Seq<char>>,
    Option<Seq<char>>,
    Seq<char>,
);

pub open spec fn parts_view(u: UrlParts) -> UrlPartsView {
    (
        u.scheme@,
        u.username@,
        opt_view(u.password),
        opt_view(u.host),
        u.path@,
        opt_view(u.query),
        opt_view(u.fragment),
        u.serialization@,
    )
}

/// What `url::Url::parse` makes of a string: `None` where it fails, else
/// the URL's scheme, username, password, host, path, query, fragment and
/// serialization, as the `Url` accessors return them.
pub uninterp spec fn url_parse(input: Seq<char>) -> Option<UrlPartsView>;

/// The serialization of the URL parsed from `input` after
/// `url::Url::set_path(path)`; `None` where `input` does not parse.
pub uninterp spec fn url_with_path(input: Seq<char>, path: Seq<char>) -> Option<Seq<char>>;

/// Calls `url::Url::parse` and reads the components of the URL through its
/// accessors (`scheme`, `username`, `password`, `host_str`, `path`, `query`,
/// `fragment`, `as_str`). The contract claims only that the result is the
/// function `url_parse` of the input: a parse failure is `None`.
#[verifier::external_body]
pub(crate) fn parse_url(input: &str) -> (r: Option<UrlParts>)
    ensures
        match r {
            Some(u) => url_parse(input@) == Some(parts_view(u)),
            None => url_parse(input@) is None,
        },
{
    match url::Url::parse(input) {
        Ok(u) => Some(
            UrlParts {
                scheme: u.scheme().to_string(),
                username: u.username().to_string(),
                password: u.password().map(|p| p.to_string()),
                host: u.host_str().map(|h| h.to_string()),
                path: u.path().to_string(),
                query: u.query().map(|q| q.to_string()),
                fragment: u.fragment().map(|f| f.to_string()),
                serialization: u.as_str().to_string(),
            },
        ),
        Err(_) => None,
    }
}

/// Calls `url::Url::set_path` on the URL that `url::Url::parse` makes of
/// `input` and returns the result's serialization. The contract claims that
/// the result is the function `url_with_path` of the arguments, and that it
/// is present exactly when `input` parses.
#[verifier::external_body]
pub(crate) fn set_url_path(input: &str, path: &str) -> (r: Option<String>)
    ensures
        (r is Some) == (url_parse(input@) is Some),
        match r {
            Some(s) => url_with_path(input@, path@) == Some(s@),
            None => url_with_path(input@, path@) is None,
        },
{
    match url::Url::parse(input) {
        Ok(mut u) => {
            u.set_path(path);
            Some(u.as_str().to_string())
        },
        Err(_) => None,
    }
}

/// What pushing `segments` onto the path of the URL that `url::Url::parse`
/// makes of `base` gives (`path_segments_mut`, then `pop_if_empty` and
/// `extend`): `Ok` with the new URL's serialization; `Err(Some(message))`
/// where `base` does not parse, with the parse error's message; `Err(None)`
/// where the URL cannot be a base.
pub uninterp spec fn url_with_segments(base: Seq<char>, segments: Seq<Seq<char>>) -> Result<
    Seq<char>,
    Option<Seq<char>>,
>;

/// Calls `url::Url::parse` on `base`, then `path_segments_mut`,
/// `pop_if_empty` and `extend(segments)`, and returns the serialization.
/// The contract claims that the result is the function `url_with_segments`
/// of the arguments, and that a parse error comes exactly where
/// `url::Url::parse` fails.
#[verifier::external_body]
pub(crate) fn push_url_segments(base: &str, segments: &Vec<String>) -> (r: Result<
    String,
    Option<String>,
>)
    ensures
        (r matches Err(Some(_))) == (url_parse(base@) is None),
        match r {
            Ok(s) => url_with_segments(base@, string_views(segments@)) == Ok::<
                Seq<char>,
                Option<Seq<char>>,
            >(s@),
            Err(Some(m)) => url_with_segments(base@, string_views(segments@)) == Err::<
                Seq<char>,
                Option<Seq<char>>,
            >(Some(m@)),
            Err(None) => url_with_segments(base@, string_views(segments@)) == Err::<
                Seq<char>,
                Option<Seq<char>>,
            >(None),
        },
{
    match url::Url::parse(base) {
        Ok(mut u) => {
            if let Ok(mut path) = u.path_segments_mut() {
                path.pop_if_empty().extend(segments.iter());
            } else {
                return Err(None);
            }
            Ok(u.as_str().to_string())
        },
        Err(e) => Err(Some(e.to_string())),
    }
}

/// What `url::Url::join(reference)` gives on the URL that `url::Url::parse`
/// makes of `base`: the joined URL's serialization, or the message of the
/// error of either call.
pub uninterp spec fn url_join(base: Seq<char>, reference: Seq<char>) -> Result<Seq<char>, Seq<char>>;

/// Calls `url::Url::parse` on `base` and `url::Url::join(reference)` on the
/// result, and returns the joined URL's serialization or the error's
/// message. The contract claims that the result is the function `url_join`
/// of the arguments.
#[verifier::external_body]
pub(crate) fn join_url(base: &str, reference: &str) -> (r: Result<String, String>)
    ensures
        match r {
            Ok(s) => url_join(base@, reference@) == Ok::<Seq<char>, Seq<char>>(s@),
            Err(m) => url_join(base@, reference@) == Err::<Seq<char>, Seq<char>>(m@),
        },
{
    match url::Url::parse(base) {
        Ok(u) => match u.join(reference) {
            Ok(joined) => Ok(joined.as_str().to_string()),
            Err(e) => Err(e.to_string()),
        },
        Err(e) => Err(e.to_string()),
    }
}

} // verus!
