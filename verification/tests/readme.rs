use repositories::github::repo_icons::walk::{finish_images, readme_drafts, DraftAnswers};
use repositories::github::repo_icons::badges::{is_badge, is_badge_at};
use repositories::github::repo_icons::links::{
    decide_link, image_page, link_plan, project_link_plan, readme_bases, repo_file_query, RepoQuery,
};
use repositories::github::repo_icons::readme_image::{
    find_keyword_mentions, mentions_in, rank_images, KeywordMention, ProjectLink, ReadmeImage,
};
use std::cmp::Ordering;

fn image(src: &str) -> ReadmeImage {
    ReadmeImage {
        src: src.to_string(),
        in_primary_heading: false,
        edge_of_primary_heading: false,
        keyword_mentions: Vec::new(),
        came_from_repo: false,
        link: None,
        is_align_center: false,
        has_size_attrs: false,
    }
}

#[test]
fn weight_counts_every_signal() {
    let mut img = image("a");
    assert_eq!(img.weight(), 0);
    img.in_primary_heading = true;
    assert_eq!(img.weight(), 2);
    img.is_align_center = true;
    img.has_size_attrs = true;
    img.came_from_repo = true;
    assert_eq!(img.weight(), 10);
    img.edge_of_primary_heading = true;
    img.link = Some(ProjectLink::Website);
    img.keyword_mentions = vec![KeywordMention::Logo, KeywordMention::Banner, KeywordMention::RepoName];
    assert_eq!(img.weight(), 50);
    img.link = Some(ProjectLink::Repo);
    assert_eq!(img.weight(), 46);
}

#[test]
fn heading_counts_only_inside_heading() {
    let mut img = image("a");
    img.is_align_center = true;
    img.has_size_attrs = true;
    img.came_from_repo = true;
    assert_eq!(img.weight(), 0);
}

#[test]
fn images_order_by_weight() {
    let mut heavy = image("heavy");
    heavy.link = Some(ProjectLink::Website);
    let light = image("light");
    assert_eq!(heavy.cmp(&light), Ordering::Less);
    assert_eq!(light.cmp(&heavy), Ordering::Greater);
    assert_eq!(light.partial_cmp(&image("other")), Some(Ordering::Equal));
}

#[test]
fn ranking_marks_heading_edges_and_sorts() {
    let mut a = image("a");
    a.in_primary_heading = true;
    let mut b = image("b");
    b.in_primary_heading = true;
    let mut c = image("c");
    c.in_primary_heading = true;
    let d = image("d");
    let mut e = image("e");
    e.keyword_mentions = vec![KeywordMention::Banner];
    let ranked = rank_images(vec![d, a, b, c, e]);
    let order: Vec<&str> = ranked.iter().map(|i| i.src.as_str()).collect();
    // e: banner (8); a and c: heading and its first / last image (6); b: heading (2)
    assert_eq!(order, vec!["e", "a", "c", "b", "d"]);
    let a = &ranked[1];
    assert!(a.edge_of_primary_heading);
    assert_eq!(a.weight(), 6);
    let b = ranked.iter().find(|i| i.src == "b").unwrap();
    assert!(!b.edge_of_primary_heading);
}

#[test]
fn first_heading_image_after_others_is_an_edge() {
    let outside = image("outside");
    let mut first = image("first");
    first.in_primary_heading = true;
    let mut second = image("second");
    second.in_primary_heading = true;
    let ranked = rank_images(vec![outside, first, second]);
    let first = ranked.iter().find(|i| i.src == "first").unwrap();
    let second = ranked.iter().find(|i| i.src == "second").unwrap();
    let outside = ranked.iter().find(|i| i.src == "outside").unwrap();
    assert!(first.edge_of_primary_heading);
    assert!(second.edge_of_primary_heading);
    assert!(!outside.edge_of_primary_heading);
}

#[test]
fn ranking_marks_first_image() {
    let mut a = image("a");
    a.in_primary_heading = true;
    let mut b = image("b");
    b.in_primary_heading = true;
    let ranked = rank_images(vec![a, b]);
    assert!(ranked.iter().all(|i| i.edge_of_primary_heading));
    assert_eq!(ranked[0].src, "a");
}

#[test]
fn keyword_mentions_found_in_path_and_alt() {
    assert_eq!(
        find_keyword_mentions("/user/Repo/raw/master/LOGO.png", Some("The Banner"), "repo"),
        vec![KeywordMention::Logo, KeywordMention::Banner, KeywordMention::RepoName]
    );
    assert_eq!(find_keyword_mentions("/x.png", None, "repo"), Vec::<KeywordMention>::new());
    assert_eq!(find_keyword_mentions("/x.png", Some("ÉCLAIR repo"), "éclair"), vec![KeywordMention::RepoName]);
}

#[test]
fn badges_are_recognised() {
    assert_eq!(is_badge("https://img.shields.io/badge/license-MIT-blue.svg"), Some(true));
    assert_eq!(is_badge("https://github.com/user/repo/workflows/CI/badge.svg"), Some(true));
    assert_eq!(is_badge("https://github.com/user/repo/raw/master/logo.png"), Some(false));
    assert_eq!(is_badge("https://www.herokucdn.com/deploy/button.png"), Some(true));
    assert_eq!(is_badge("http://127.0.0.1/badge.svg"), None);
    assert!(is_badge_at("CODECOV.IO", "/gh/x/y"));
    assert!(!is_badge_at("github.com", "/a/b/c/workflows/x"));
}

#[test]
fn image_page_swaps_raw_for_blob() {
    assert_eq!(
        image_page("https://github.com/u/r/raw/master/raw/x.png").as_deref(),
        Some("https://github.com/u/r/blob/master/raw/x.png")
    );
}

#[test]
fn link_to_image_page_is_no_link() {
    let plan = project_link_plan(
        "r",
        "https://github.com/u/r/blob/master/x.png",
        "https://github.com/u/r/raw/master/x.png",
        None,
    );
    assert!(plan.no_link);
    assert_eq!(decide_link(&plan, true, true), None);
}

#[test]
fn github_repo_link_asks_about_repo() {
    let plan = project_link_plan("r", "https://GitHub.com/User/Repo", "https://github.com/u/r/raw/master/x.png", None);
    assert!(!plan.no_link);
    let q = plan.repo_query.as_ref().unwrap();
    assert_eq!((q.user.as_str(), q.repo.as_str()), ("user", "repo"));
    assert!(plan.pages_query.is_none());
    assert_eq!(decide_link(&plan, false, true), Some(ProjectLink::Repo));
    assert_eq!(decide_link(&plan, false, false), None);
}

#[test]
fn pages_and_homepage_links_are_websites() {
    let plan = project_link_plan(
        "samdenty.github.io",
        "https://samdenty.github.io/",
        "https://github.com/u/r/raw/master/x.png",
        None,
    );
    assert!(plan.pages_site);
    assert_eq!(decide_link(&plan, false, false), Some(ProjectLink::Website));

    let plan = project_link_plan("r", "https://user.github.io/Proj/page", "https://x.org/i.png", None);
    let q = plan.pages_query.as_ref().unwrap();
    assert_eq!((q.user.as_str(), q.repo.as_str()), ("r", "proj"));
    assert_eq!(decide_link(&plan, true, false), Some(ProjectLink::Website));

    let plan = project_link_plan("r", "https://Example.com/docs", "https://x.org/i.png", Some("https://example.com"));
    assert!(plan.homepage_match);
    assert_eq!(decide_link(&plan, false, false), Some(ProjectLink::Website));

    let plan = link_plan("r", false, None, "/", None);
    assert!(plan.no_link);
}

#[test]
fn repo_files_are_asked_about() {
    let q = repo_file_query("https://raw.githubusercontent.com/Owner/Name/master/logo.png").unwrap().unwrap();
    assert_eq!((q.user.as_str(), q.repo.as_str()), ("owner", "name"));
    assert!(repo_file_query("https://github.com/owner/name").unwrap().is_none());
    assert!(repo_file_query("https://example.com/a/b/c").unwrap().is_none());
    assert!(repo_file_query("http://10.0.0.1/a/b/c").is_none());
}

#[test]
fn readme_bases_are_lowercase() {
    let (href, src) = readme_bases("SamDenty", "Repo");
    assert_eq!(href, "https://github.com/samdenty/repo/blob/master/");
    assert_eq!(src, "https://github.com/samdenty/repo/raw/master/");
}

#[test]
fn mentions_read_the_address_path_and_alt() {
    let m = mentions_in("https://github.com/o/cool/raw/master/Logo.png", None, "cool");
    assert_eq!(m, vec![KeywordMention::Logo, KeywordMention::RepoName]);
    let m = mentions_in("https://example.com/img.png?logo=1", Some("The BANNER"), "x");
    assert_eq!(m, vec![KeywordMention::Banner]);
    assert!(mentions_in("not a url", None, "zzz").is_empty());
}

#[test]
fn repo_query_lowercases_both_names() {
    let q = RepoQuery::new("SamDenty", "Console-Feed");
    assert_eq!(q.user, "samdenty");
    assert_eq!(q.repo, "console-feed");
}

#[test]
fn readme_drafts_read_images_links_and_heading() {
    let html = r#"<div><h1 align="center"><a href="https://example.com/"><img src="logo.png" width="100" alt="Cool logo"></a></h1>
        <p align="center"><img src="https://img.shields.io/badge/x-y-green.svg"></p>
        <p><a href="https://github.com/Owner/Cool"><img src="docs/shot.png" data-canonical-src="https://example.org/shot.png"></a></p></div>"#;
    let drafts = readme_drafts(html, "Owner", "Cool", Some("https://example.com/home")).unwrap();
    assert_eq!(drafts.len(), 2);

    let logo = &drafts[0];
    assert_eq!(logo.src, "https://github.com/owner/cool/raw/master/logo.png");
    assert!(logo.in_primary_heading && logo.is_align_center && logo.has_size_attrs);
    assert_eq!(logo.keyword_mentions, vec![KeywordMention::Logo, KeywordMention::RepoName]);
    assert_eq!(logo.plans.len(), 1);
    assert!(logo.plans[0].homepage_match);
    let q = logo.from_repo.as_ref().unwrap().as_ref().unwrap();
    assert_eq!((q.user.as_str(), q.repo.as_str()), ("owner", "cool"));

    let shot = &drafts[1];
    assert_eq!(shot.src, "https://github.com/owner/cool/raw/master/docs/shot.png");
    assert_eq!(shot.image_src, "https://example.org/shot.png");
    assert!(!shot.in_primary_heading && !shot.is_align_center && !shot.has_size_attrs);
    let rq = shot.plans[0].repo_query.as_ref().unwrap();
    assert_eq!((rq.user.as_str(), rq.repo.as_str()), ("owner", "cool"));
    assert!(matches!(shot.from_repo, Some(None)));

    let answers = vec![
        DraftAnswers { links: vec![(false, false)], from_repo: true },
        DraftAnswers { links: vec![(false, true)], from_repo: false },
    ];
    let images = finish_images(drafts, &answers);
    assert_eq!(images[0].link, Some(ProjectLink::Website));
    assert!(images[0].came_from_repo && images[0].edge_of_primary_heading);
    assert_eq!(images[0].weight(), 42);
    assert_eq!(images[1].link, Some(ProjectLink::Repo));
    assert!(!images[1].came_from_repo);
}

#[test]
fn finish_images_counts_missing_answers_as_no() {
    let html = r#"<p><a href="https://github.com/o/r"><img src="x.png"></a></p>"#;
    let drafts = readme_drafts(html, "o", "r", None).unwrap();
    let images = finish_images(drafts, &vec![]);
    assert_eq!(images.len(), 1);
    assert_eq!(images[0].link, None);
    assert!(!images[0].came_from_repo);
}
