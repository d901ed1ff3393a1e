use crate::github::branches::same_text;
use crate::github::repo_icons::readme_image::ProjectLink;
use crate::text::{chars_of, lowercase, split_chars, split_spec, string_of, to_lowercase};
use crate::web::{url_domain, url_domain_of, url_path, url_path_of, url_with_path, url_with_path_of};
use crate::text::{replace_first, replace_first_spec};
use vstd::prelude::*;

verus! {

/// The text of `s` between positions `i` and `j`.
fn slice_string(s: &[char], i: usize, j: usize) -> (res: String)
    requires
        i <= j <= s@.len(),
    ensures
        res@ == s@.subrange(i as int, j as int),
{
    let mut v: Vec<char> = Vec::new();
    let mut k: usize = i;
    while k < j
        invariant
            i <= k <= j,
            j <= s@.len(),
            v@ == s@.subrange(i as int, k as int),
        decreases j - k,
    {
        v.push(s[k]);
        k += 1;
        assert(v@ =~= s@.subrange(i as int, k as int));
    }
    string_of(v.as_slice())
}

/// The first segment of a URL path, as the pattern `^/([^/]+)` captures it.
pub open spec fn first_segment(path: Seq<char>) -> Option<Seq<char>> {
    let p = split_spec(path, '/');
    if p.len() >= 2 && p[0].len() == 0 && p[1].len() > 0 {
        Some(p[1])
    } else {
        None
    }
}

/// The first two segments of a URL path, as the pattern
/// `^/([^/]+)/([^/]+)` captures them; with `trailing`, a `/` must follow
/// the second, as in `^/([^/]+)/([^/]+)/`.
pub open spec fn two_segments(path: Seq<char>, trailing: bool) -> Option<(Seq<char>, Seq<char>)> {
    let p = split_spec(path, '/');
    if p.len() >= (if trailing { 4int } else { 3int }) && p[0].len() == 0 && p[1].len() > 0 && p[2].len() > 0 {
        Some((p[1], p[2]))
    } else {
        None
    }
}

/// The user of a GitHub Pages domain, as the pattern
/// `^([^.])+\.github\.(com|io)$` captures it: the last character before
/// `.github.com` or `.github.io`, when nothing before holds a dot.
pub open spec fn pages_user(domain: Seq<char>) -> Option<Seq<char>> {
    let com = ".github.com"@;
    let io = ".github.io"@;
    if domain.len() > com.len() && domain.skip(domain.len() - com.len()) == com
        && !domain.take(domain.len() - com.len()).contains('.') {
        Some(seq![domain[domain.len() - com.len() - 1]])
    } else if domain.len() > io.len() && domain.skip(domain.len() - io.len()) == io
        && !domain.take(domain.len() - io.len()).contains('.') {
        Some(seq![domain[domain.len() - io.len() - 1]])
    } else {
        None
    }
}

/// Whether `s` ends with `suffix` and holds no dot before it.
fn dotless_with_suffix(s: &[char], suffix: &[char]) -> (res: bool)
    ensures
        res == (s@.len() > suffix@.len() && s@.skip(s@.len() - suffix@.len()) == suffix@
            && !s@.take(s@.len() - suffix@.len()).contains('.')),
{
    if s.len() <= suffix.len() {
        return false;
    }
    let n = s.len();
    let start = n - suffix.len();
    let mut i: usize = 0;
    while i < suffix.len()
        invariant
            n == s@.len(),
            start == s@.len() - suffix@.len(),
            i <= suffix@.len(),
            forall|k: int| 0 <= k < i ==> s@[start + k] == suffix@[k],
        decreases suffix@.len() - i,
    {
        if s[start + i] != suffix[i] {
            assert(s@.skip(start as int)[i as int] != suffix@[i as int]);
            return false;
        }
        i += 1;
    }
    assert(s@.skip(start as int) =~= suffix@);
    let mut j: usize = 0;
    while j < start
        invariant
            start == s@.len() - suffix@.len(),
            j <= start,
            forall|k: int| 0 <= k < j ==> s@[k] != '.',
        decreases start - j,
    {
        if s[j] == '.' {
            assert(s@.take(start as int)[j as int] == '.');
            return false;
        }
        j += 1;
    }
    assert(!s@.take(start as int).contains('.')) by {
        if s@.take(start as int).contains('.') {
            let k = choose|k: int| 0 <= k < s@.take(start as int).len() && s@.take(start as int)[k] == '.';
            assert(s@[k] == '.');
        }
    }
    true
}

/// The user of a GitHub Pages domain.
fn find_pages_user(domain: &str) -> (res: Option<String>)
    ensures
        match pages_user(domain@) {
            Some(u) => res matches Some(r) && r@ == u,
            None => res is None,
        },
{
    let d = chars_of(domain);
    let com = chars_of(".github.com");
    let io = chars_of(".github.io");
    if dotless_with_suffix(d.as_slice(), com.as_slice()) {
        let k = d.len() - com.len() - 1;
        Some(slice_string(d.as_slice(), k, k + 1))
    } else if dotless_with_suffix(d.as_slice(), io.as_slice()) {
        let k = d.len() - io.len() - 1;
        Some(slice_string(d.as_slice(), k, k + 1))
    } else {
        None
    }
}

/// The first segment of a URL path.
fn find_first_segment(path: &str) -> (res: Option<String>)
    ensures
        match first_segment(path@) {
            Some(s) => res matches Some(r) && r@ == s,
            None => res is None,
        },
{
    let cs = chars_of(path);
    let p = split_chars(cs.as_slice(), '/');
    if p.len() >= 2 && p[0].len() == 0 && p[1].len() > 0 {
        assert(p@[1]@ == split_spec(path@, '/')[1]);
        Some(string_of(p[1].as_slice()))
    } else {
        None
    }
}

/// The first two segments of a URL path.
fn find_two_segments(path: &str, trailing: bool) -> (res: Option<(String, String)>)
    ensures
        match two_segments(path@, trailing) {
            Some((a, b)) => res matches Some((x, y)) && x@ == a && y@ == b,
            None => res is None,
        },
{
    let cs = chars_of(path);
    let p = split_chars(cs.as_slice(), '/');
    let min: usize = if trailing { 4 } else { 3 };
    if p.len() >= min && p[0].len() == 0 && p[1].len() > 0 && p[2].len() > 0 {
        assert(p@[1]@ == split_spec(path@, '/')[1]);
        assert(p@[2]@ == split_spec(path@, '/')[2]);
        Some((string_of(p[1].as_slice()), string_of(p[2].as_slice())))
    } else {
        None
    }
}

/// A question whether `user/repo` is the repository whose README is read.
#[derive(Debug)]
pub struct RepoQuery {
    pub user: String,
    pub repo: String,
}

/// The question about `user/repo`, with both names lowercased.
pub open spec fn query_spec(user: Seq<char>, repo: Seq<char>) -> (Seq<char>, Seq<char>) {
    (lowercase(user), lowercase(repo))
}

/// The names of a question.
pub open spec fn query_view(q: Option<RepoQuery>) -> Option<(Seq<char>, Seq<char>)> {
    match q {
        Some(q) => Some((q.user@, q.repo@)),
        None => None,
    }
}

impl RepoQuery {
    /// The question about `user/repo`, with both names lowercased.
    pub fn new(user: &str, repo: &str) -> (res: RepoQuery)
        ensures
            (res.user@, res.repo@) == query_spec(user@, repo@),
    {
        RepoQuery { user: to_lowercase(user), repo: to_lowercase(repo) }
    }
}

/// The hosts whose files can belong to a repository.
pub open spec fn is_repo_host(domain: Seq<char>) -> bool {
    domain == "github.com"@ || domain == "raw.githubusercontent.com"@ || domain == "raw.github.com"@
}

/// Whether an image comes from the repository: `None` when its address has
/// no domain; `Some(None)` when it cannot (the answer is no); otherwise the
/// repository that its address names, which must be asked about.
pub open spec fn repo_file_query_spec(url: Seq<char>) -> Option<Option<(Seq<char>, Seq<char>)>> {
    match url_domain_of(url) {
        None => None,
        Some(d) => {
            let domain = lowercase(d);
            if !is_repo_host(domain) {
                Some(None)
            } else {
                match url_path_of(url) {
                    None => Some(None),
                    Some(path) => match two_segments(path, true) {
                        Some((u, r)) => Some(Some(query_spec(u, r))),
                        None => Some(None),
                    },
                }
            }
        },
    }
}

/// Which repository, if any, an image's address points into.
pub fn repo_file_query(url: &str) -> (res: Option<Option<RepoQuery>>)
    ensures
        match repo_file_query_spec(url@) {
            None => res is None,
            Some(q) => res matches Some(r) && query_view(r) == q,
        },
{
    let d = match url_domain(url) {
        None => return None,
        Some(d) => d,
    };
    let domain = to_lowercase(d.as_str());
    let github = "github.com";
    let raw_user = "raw.githubusercontent.com";
    let raw = "raw.github.com";
    if !(same_text(domain.as_str(), github) || same_text(domain.as_str(), raw_user) || same_text(domain.as_str(), raw)) {
        return Some(None);
    }
    let path = match url_path(url) {
        None => return Some(None),
        Some(p) => p,
    };
    match find_two_segments(path.as_str(), true) {
        Some((u, r)) => Some(Some(RepoQuery::new(u.as_str(), r.as_str()))),
        None => Some(None),
    }
}

/// What deciding an image's link takes: the answers known from the addresses
/// alone, and the questions to ask.
#[derive(Debug)]
pub struct LinkPlan {
    /// The link has no domain, or points to the image's own page.
    pub no_link: bool,
    /// The link is the repository's own GitHub Pages site.
    pub pages_site: bool,
    /// The GitHub Pages repository that the link points into.
    pub pages_query: Option<RepoQuery>,
    /// The link is on the project's homepage domain.
    pub homepage_match: bool,
    /// The GitHub repository that the link points to.
    pub repo_query: Option<RepoQuery>,
}

/// What deciding the link of an image takes, for the repository named
/// `repo`: `link_domain` and `link_path` are those of the link,
/// `same_as_image` tells whether the link is the image's own page, and
/// `homepage_domain` is the project's homepage domain.
pub open spec fn link_plan_spec(
    repo: Seq<char>,
    same_as_image: bool,
    link_domain: Option<Seq<char>>,
    link_path: Seq<char>,
    homepage_domain: Option<Seq<char>>,
) -> (bool, bool, Option<(Seq<char>, Seq<char>)>, bool, Option<(Seq<char>, Seq<char>)>) {
    match link_domain {
        None => (true, false, None, false, None),
        Some(d) => {
            if same_as_image {
                (true, false, None, false, None)
            } else {
                let domain = lowercase(d);
                let pages = pages_user(domain);
                let pages_site = pages is Some && repo == domain;
                let pages_query = match (pages, first_segment(link_path)) {
                    (Some(u), Some(r)) => Some(query_spec(u, r)),
                    _ => None,
                };
                let homepage_match = match homepage_domain {
                    Some(h) => lowercase(h) == domain,
                    None => false,
                };
                let repo_query = if domain == "github.com"@ {
                    match two_segments(link_path, false) {
                        Some((u, r)) => Some(query_spec(u, r)),
                        None => None,
                    }
                } else {
                    None
                };
                (false, pages_site, pages_query, homepage_match, repo_query)
            }
        },
    }
}

/// The fields of a plan.
pub open spec fn plan_view(p: LinkPlan) -> (bool, bool, Option<(Seq<char>, Seq<char>)>, bool, Option<(Seq<char>, Seq<char>)>) {
    (p.no_link, p.pages_site, query_view(p.pages_query), p.homepage_match, query_view(p.repo_query))
}

/// Plans the decision of an image's link.
pub fn link_plan(
    repo: &str,
    same_as_image: bool,
    link_domain: Option<&str>,
    link_path: &str,
    homepage_domain: Option<&str>,
) -> (res: LinkPlan)
    ensures
        plan_view(res) == link_plan_spec(
            repo@,
            same_as_image,
            match link_domain { Some(d) => Some(d@), None => None },
            link_path@,
            match homepage_domain { Some(h) => Some(h@), None => None },
        ),
{
    let none = LinkPlan { no_link: true, pages_site: false, pages_query: None, homepage_match: false, repo_query: None };
    let d = match link_domain {
        None => return none,
        Some(d) => d,
    };
    if same_as_image {
        return none;
    }
    let domain = to_lowercase(d);
    let pages = find_pages_user(domain.as_str());
    let pages_site = pages.is_some() && same_text(repo, domain.as_str());
    let pages_query = match pages {
        Some(u) => match find_first_segment(link_path) {
            Some(r) => Some(RepoQuery::new(u.as_str(), r.as_str())),
            None => None,
        },
        None => None,
    };
    let homepage_match = match homepage_domain {
        Some(h) => {
            let lower = to_lowercase(h);
            same_text(lower.as_str(), domain.as_str())
        },
        None => false,
    };
    let repo_query = if same_text(domain.as_str(), "github.com") {
        match find_two_segments(link_path, false) {
            Some((u, r)) => Some(RepoQuery::new(u.as_str(), r.as_str())),
            None => None,
        }
    } else {
        None
    };
    LinkPlan { no_link: false, pages_site, pages_query, homepage_match, repo_query }
}

/// The link of an image, from its plan and the answers to its questions
/// (an answer to a question the plan does not ask is ignored): its own
/// GitHub Pages site, a page of a GitHub Pages repository that is this one,
/// or the homepage's domain make it the project's website; a GitHub link to
/// this repository makes it the repository.
pub open spec fn decide_link_spec(
    plan: (bool, bool, Option<(Seq<char>, Seq<char>)>, bool, Option<(Seq<char>, Seq<char>)>),
    pages_same: bool,
    repo_same: bool,
) -> Option<ProjectLink> {
    let (no_link, pages_site, pages_query, homepage_match, repo_query) = plan;
    if no_link {
        None
    } else if pages_site || (pages_query is Some && pages_same) || homepage_match {
        Some(ProjectLink::Website)
    } else if repo_query is Some && repo_same {
        Some(ProjectLink::Repo)
    } else {
        None
    }
}

/// Decides an image's link.
pub fn decide_link(plan: &LinkPlan, pages_same: bool, repo_same: bool) -> (res: Option<ProjectLink>)
    ensures
        res == decide_link_spec(plan_view(*plan), pages_same, repo_same),
{
    if plan.no_link {
        None
    } else if plan.pages_site || (plan.pages_query.is_some() && pages_same) || plan.homepage_match {
        Some(ProjectLink::Website)
    } else if plan.repo_query.is_some() && repo_same {
        Some(ProjectLink::Repo)
    } else {
        None
    }
}

/// Which answers make a link the project's: an image whose link is missing
/// or is its own page is linked to nothing; a link is the website when it is
/// the repository's own GitHub Pages site or on the homepage's domain, or
/// when it points into a GitHub Pages repository answered to be this one; a
/// link is the repository only when its GitHub repository is answered to be
/// this one. So a link whose questions are all answered no is the project's
/// website only by its address (own Pages site or homepage domain), and a
/// GitHub Pages link into another repository is nothing.
pub proof fn lemma_link_needs_a_yes(
    plan: (bool, bool, Option<(Seq<char>, Seq<char>)>, bool, Option<(Seq<char>, Seq<char>)>),
    pages_same: bool,
    repo_same: bool,
)
    ensures
        plan.0 ==> decide_link_spec(plan, pages_same, repo_same) is None,
        decide_link_spec(plan, false, false) is Some ==> !plan.0 && (plan.1 || plan.3)
            && decide_link_spec(plan, false, false) == Some(ProjectLink::Website),
        !plan.1 && !plan.3 && !(plan.4 is Some && repo_same) ==> decide_link_spec(plan, false, repo_same) is None,
        !plan.0 && (plan.1 || plan.3 || (plan.2 is Some && pages_same))
            ==> decide_link_spec(plan, pages_same, repo_same) == Some(ProjectLink::Website),
        decide_link_spec(plan, pages_same, repo_same) == Some(ProjectLink::Repo)
            ==> plan.4 is Some && repo_same && !plan.1 && !plan.3 && !(plan.2 is Some && pages_same),
        decide_link_spec(plan, pages_same, repo_same) == Some(ProjectLink::Website)
            ==> plan.1 || plan.3 || (plan.2 is Some && pages_same),
        plan.2 is None ==> decide_link_spec(plan, true, repo_same) == decide_link_spec(plan, false, repo_same),
        plan.4 is None ==> decide_link_spec(plan, pages_same, true) == decide_link_spec(plan, pages_same, false),
{
}

/// The page and raw-file bases of a repository's README links.
pub open spec fn readme_bases_spec(owner: Seq<char>, repo: Seq<char>) -> (Seq<char>, Seq<char>) {
    (
        "https://github.com/"@ + lowercase(owner) + "/"@ + lowercase(repo) + "/blob/master/"@,
        "https://github.com/"@ + lowercase(owner) + "/"@ + lowercase(repo) + "/raw/master/"@,
    )
}

/// The bases against which a repository's README links and images resolve.
pub fn readme_bases(owner: &str, repo: &str) -> (res: (String, String))
    ensures
        (res.0@, res.1@) == readme_bases_spec(owner@, repo@),
{
    let o = to_lowercase(owner);
    let r = to_lowercase(repo);
    let mut href = chars_of("https://github.com/");
    let mut src = chars_of("https://github.com/");
    let mut oc = chars_of(o.as_str());
    let mut oc2 = chars_of(o.as_str());
    let mut rc = chars_of(r.as_str());
    let mut rc2 = chars_of(r.as_str());
    let mut s1 = chars_of("/");
    let mut s2 = chars_of("/");
    let mut blob = chars_of("/blob/master/");
    let mut raw = chars_of("/raw/master/");
    href.append(&mut oc);
    href.append(&mut s1);
    href.append(&mut rc);
    href.append(&mut blob);
    src.append(&mut oc2);
    src.append(&mut s2);
    src.append(&mut rc2);
    src.append(&mut raw);
    (string_of(href.as_slice()), string_of(src.as_slice()))
}


/// The page of an image in a repository: its address with the first `/raw/`
/// of its path made `/blob/`.
pub open spec fn image_page_of(img_src: Seq<char>) -> Option<Seq<char>> {
    match url_path_of(img_src) {
        Some(p) => url_with_path_of(img_src, replace_first_spec(p, "/raw/"@, "/blob/"@)),
        None => None,
    }
}

/// The page of an image in a repository.
pub fn image_page(img_src: &str) -> (res: Option<String>)
    ensures
        match image_page_of(img_src@) {
            Some(p) => res matches Some(r) && r@ == p,
            None => res is None,
        },
{
    let path = match url_path(img_src) {
        None => return None,
        Some(p) => p,
    };
    let cs = chars_of(path.as_str());
    let raw = chars_of("/raw/");
    let blob = chars_of("/blob/");
    let replaced = replace_first(cs.as_slice(), raw.as_slice(), blob.as_slice());
    let new_path = string_of(replaced.as_slice());
    url_with_path(img_src, new_path.as_str())
}

/// Plans the decision of the link `link_href` around image `img_src` in the
/// README of repository `repo`, whose homepage is `homepage`.
pub fn project_link_plan(repo: &str, link_href: &str, img_src: &str, homepage: Option<&str>) -> (res: LinkPlan)
    ensures
        plan_view(res) == link_plan_spec(
            repo@,
            image_page_of(img_src@) == Some(link_href@),
            url_domain_of(link_href@),
            match url_path_of(link_href@) { Some(p) => p, None => Seq::<char>::empty() },
            match homepage { Some(h) => url_domain_of(h@), None => None },
        ),
{
    let same_as_image = match image_page(img_src) {
        Some(p) => same_text(p.as_str(), link_href),
        None => false,
    };
    let domain = url_domain(link_href);
    let path = match url_path(link_href) {
        Some(p) => p,
        None => String::new(),
    };
    let home = match homepage {
        Some(h) => url_domain(h),
        None => None,
    };
    let d = match &domain {
        Some(d) => Some(d.as_str()),
        None => None,
    };
    let hd = match &home {
        Some(h) => Some(h.as_str()),
        None => None,
    };
    link_plan(repo, same_as_image, d, path.as_str(), hd)
}

} // verus!
