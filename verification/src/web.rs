use vstd::prelude::*;

verus! {

/// The domain of a URL, as `url::Url::parse` then `domain` give it; `None`
/// when the text is no URL or the URL's host is no domain.
pub uninterp spec fn url_domain_of(url: Seq<char>) -> Option<Seq<char>>;

/// The path of a URL, as `url::Url::parse` then `path` give it; `None` when
/// the text is no URL.
pub uninterp spec fn url_path_of(url: Seq<char>) -> Option<Seq<char>>;

/// The URL that `href` names relative to `base`, as `url::Url::parse` then
/// `join` give it, serialized; `None` when either step fails.
pub uninterp spec fn url_joined(base: Seq<char>, href: Seq<char>) -> Option<Seq<char>>;

/// Reads the domain of a URL with `url::Url::parse` and `domain`.
/// Trusted: the result is what `url_domain_of` names for the text; a URL
/// that has a domain was parsed, and every parsed URL has a path.
#[verifier::external_body]
pub(crate) fn url_domain(url: &str) -> (res: Option<String>)
    ensures
        match res {
            Some(d) => url_domain_of(url@) == Some(d@),
            None => url_domain_of(url@) is None,
        },
        res is Some ==> url_path_of(url@) is Some,
{
    url::Url::parse(url).ok().and_then(|u| u.domain().map(|d| d.to_string()))
}

/// Reads the path of a URL with `url::Url::parse` and `path`.
/// Trusted: the result is what `url_path_of` names for the text.
#[verifier::external_body]
pub(crate) fn url_path(url: &str) -> (res: Option<String>)
    ensures
        match res {
            Some(p) => url_path_of(url@) == Some(p@),
            None => url_path_of(url@) is None,
        },
{
    url::Url::parse(url).ok().map(|u| u.path().to_string())
}

/// Resolves `href` against `base` with `url::Url::parse` and `join`.
/// Trusted: the result is what `url_joined` names for the two texts.
#[verifier::external_body]
pub(crate) fn url_join(base: &str, href: &str) -> (res: Option<String>)
    ensures
        match res {
            Some(u) => url_joined(base@, href@) == Some(u@),
            None => url_joined(base@, href@) is None,
        },
{
    url::Url::parse(base).ok().and_then(|b| b.join(href).ok()).map(|u| u.to_string())
}


/// A URL with its path replaced, as `url::Url::parse` then `set_path` give
/// it, serialized; `None` when the text is no URL.
pub uninterp spec fn url_with_path_of(url: Seq<char>, path: Seq<char>) -> Option<Seq<char>>;

/// Replaces the path of a URL with `url::Url::parse` and `set_path`.
/// Trusted: the result is what `url_with_path_of` names for the two texts.
#[verifier::external_body]
pub(crate) fn url_with_path(url: &str, path: &str) -> (res: Option<String>)
    ensures
        match res {
            Some(u) => url_with_path_of(url@, path@) == Some(u@),
            None => url_with_path_of(url@, path@) is None,
        },
{
    url::Url::parse(url).ok().map(|mut u| {
        u.set_path(path);
        u.to_string()
    })
}

/// The scheme of a URL, lowercase, as `url::Url::parse` then `scheme` give
/// it; `None` when the text is no URL.
pub uninterp spec fn url_scheme_of(url: Seq<char>) -> Option<Seq<char>>;

/// Reads the scheme of a URL with `url::Url::parse` and `scheme`.
/// Trusted: the result is what `url_scheme_of` names for the text.
#[verifier::external_body]
pub(crate) fn url_scheme(url: &str) -> (res: Option<String>)
    ensures
        match res {
            Some(s) => url_scheme_of(url@) == Some(s@),
            None => url_scheme_of(url@) is None,
        },
{
    url::Url::parse(url).ok().map(|u| u.scheme().to_string())
}

/// Whether an icon's address is a `data:` URL, whose icon is read from the
/// address itself rather than fetched; `None` when the text is no URL.
pub fn is_data_url(url: &str) -> (res: Option<bool>)
    ensures
        match url_scheme_of(url@) {
            Some(s) => res == Some(s == "data"@),
            None => res is None,
        },
{
    match url_scheme(url) {
        Some(s) => Some(crate::github::branches::same_text(s.as_str(), "data")),
        None => None,
    }
}

} // verus!
