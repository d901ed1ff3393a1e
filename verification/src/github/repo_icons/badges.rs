use crate::matching::{glob_match, glob_matches};
use crate::text::{chars_of, string_of};
use crate::web::{url_domain, url_domain_of, url_path, url_path_of};
use vstd::prelude::*;

verus! {

/// The addresses of badge images: CI, coverage and chat badges and the like.
pub open spec fn badge_patterns() -> Seq<Seq<char>> {
    seq![
        "badges.greenkeeper.io/**"@,
        "img.shields.io/**"@,
        "travis-ci.org/**"@,
        "ci.appveyor.com/**"@,
        "api.codeclimate.com/**"@,
        "snyk.io/**"@,
        "badges.gitter.im/**"@,
        "codecov.io/**"@,
        "badge.runkitcdn.com/**"@,
        "github.com/*/*/workflows/**"@,
        "isitmaintained.com/badge/**"@,
        "d2ss6ovg47m0r5.cloudfront.net/badges/**"@,
        "liberapay.com/assets/widgets/**"@,
        "www.herokucdn.com/deploy/button.png"@,
        "codesandbox.io/static/img/play-codesandbox.svg"@,
    ]
}

/// Whether the domain and path of an image's address match a badge pattern.
pub open spec fn is_badge_spec(domain: Seq<char>, path: Seq<char>) -> bool {
    exists|i: int| 0 <= i < badge_patterns().len() && glob_matches(#[trigger] badge_patterns()[i], domain + path, false, true, false)
}

/// Whether an image's address (domain and path) is that of a badge.
pub fn is_badge_at(domain: &str, path: &str) -> (res: bool)
    ensures
        res == is_badge_spec(domain@, path@),
{
    let patterns: [&str; 15] = [
        "badges.greenkeeper.io/**",
        "img.shields.io/**",
        "travis-ci.org/**",
        "ci.appveyor.com/**",
        "api.codeclimate.com/**",
        "snyk.io/**",
        "badges.gitter.im/**",
        "codecov.io/**",
        "badge.runkitcdn.com/**",
        "github.com/*/*/workflows/**",
        "isitmaintained.com/badge/**",
        "d2ss6ovg47m0r5.cloudfront.net/badges/**",
        "liberapay.com/assets/widgets/**",
        "www.herokucdn.com/deploy/button.png",
        "codesandbox.io/static/img/play-codesandbox.svg",
    ];
    assert(patterns@.map_values(|p: &str| p@) =~= badge_patterns());
    let mut text = chars_of(domain);
    let mut p = chars_of(path);
    text.append(&mut p);
    let url = string_of(text.as_slice());
    let mut i: usize = 0;
    while i < 15
        invariant
            i <= 15,
            url@ == domain@ + path@,
            patterns@.map_values(|p: &str| p@) == badge_patterns(),
            forall|j: int| 0 <= j < i ==> !glob_matches(#[trigger] badge_patterns()[j], domain@ + path@, false, true, false),
        decreases 15 - i,
    {
        assert(patterns@[i as int]@ == badge_patterns()[i as int]);
        if glob_match(patterns[i], url.as_str(), false, true, false) {
            return true;
        }
        i += 1;
    }
    false
}

/// Whether an image's address is that of a badge; `None` when it has no
/// domain.
pub fn is_badge(url: &str) -> (res: Option<bool>)
    ensures
        match (url_domain_of(url@), url_path_of(url@)) {
            (Some(d), Some(p)) => res == Some(is_badge_spec(d, p)),
            _ => res is None,
        },
        res is None <==> url_domain_of(url@) is None,
{
    let domain = match url_domain(url) {
        Some(d) => d,
        None => return None,
    };
    let path = match url_path(url) {
        Some(p) => p,
        None => return None,
    };
    Some(is_badge_at(domain.as_str(), path.as_str()))
}

} // verus!
