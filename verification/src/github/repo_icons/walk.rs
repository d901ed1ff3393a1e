use crate::github::branches::same_text;
use crate::github::repo_icons::badges::{is_badge, is_badge_spec};
use crate::github::repo_icons::links::{
    decide_link, decide_link_spec, image_page_of, link_plan_spec, plan_view, project_link_plan, query_view,
    readme_bases, readme_bases_spec, repo_file_query, repo_file_query_spec, LinkPlan, RepoQuery,
};
use crate::github::repo_icons::readme_image::{
    keyword_mentions_spec, mark_edges_spec, mentions_in, rank_images, KeywordMention, ProjectLink, ReadmeImage,
};
use crate::sort::stable_sorted_desc;
use crate::text::lowercase;
use crate::web::{url_domain_of, url_join, url_joined, url_path_of};
use scraper::node::Element;
use scraper::{ElementRef, Html, Selector};
use std::collections::HashMap;
use vstd::prelude::*;

verus! {

/// An element that encloses an image of a README.
#[derive(Debug)]
pub struct Ancestor {
    /// The element's tag name.
    pub name: String,
    /// Its `align` attribute.
    pub align: Option<String>,
    /// Its `href` attribute.
    pub href: Option<String>,
}

/// An `img` element of a README that has a `src`.
#[derive(Debug)]
pub struct ImgNode {
    pub src: Option<String>,
    /// Its `data-canonical-src` attribute.
    pub canonical: Option<String>,
    pub alt: Option<String>,
    /// Whether it has a `width` or a `height` attribute.
    pub sized: bool,
    /// Whether it stands in the document's first `h1`, its primary heading.
    pub in_heading: bool,
    /// The elements that enclose it, nearest first.
    pub ancestors: Vec<Ancestor>,
}

/// The text of an optional string.
pub open spec fn text_of(o: Option<String>) -> Option<Seq<char>> {
    match o {
        Some(s) => Some(s@),
        None => None,
    }
}

/// An enclosing element as plain values: tag name, `align` and `href`.
pub type AncView = (Seq<char>, Option<Seq<char>>, Option<Seq<char>>);

/// An image element as plain values: `src`, `data-canonical-src`, `alt`,
/// whether it is sized, whether it stands in the primary heading, and its
/// enclosing elements, nearest first.
pub type ImgView = (Option<Seq<char>>, Option<Seq<char>>, Option<Seq<char>>, bool, bool, Seq<AncView>);

/// An enclosing element as plain values.
pub open spec fn ancestor_view(a: Ancestor) -> AncView {
    (a.name@, text_of(a.align), text_of(a.href))
}

/// An image element as plain values.
pub open spec fn img_view(i: ImgNode) -> ImgView {
    (text_of(i.src), text_of(i.canonical), text_of(i.alt), i.sized, i.in_heading, i.ancestors@.map_values(|a: Ancestor| ancestor_view(a)))
}

/// An element as plain values: the values of the attributes asked for, and
/// its enclosing elements, nearest first, each with its tag name, the
/// values of the attributes asked for, and its position in the parsed tree.
pub type NodeView = (Seq<Option<Seq<char>>>, Seq<(Seq<char>, Seq<Option<Seq<char>>>, usize)>);

/// For each element of the HTML document `html` that the CSS selector
/// `selector` matches, in document order, as `scraper` parses and walks it:
/// the values of its attributes `attrs`, and its enclosing elements, nearest
/// first, each with its tag name, the values of the same attributes
/// and its position among the nodes of the parsed tree (its index in
/// `ego_tree::Tree::nodes`); `None` when `scraper` does not read the
/// selector.
pub uninterp spec fn html_nodes_of(
    html: Seq<char>,
    selector: Seq<char>,
    attrs: Seq<Seq<char>>,
) -> Option<Seq<NodeView>>;

/// The position among the nodes of the parsed HTML document `html` (its
/// index in `ego_tree::Tree::nodes`) of the first element that `selector`
/// matches, as `scraper` parses and walks it; `Some(None)` when none does;
/// `None` when `scraper` does not read the selector.
pub uninterp spec fn first_position_of(html: Seq<char>, selector: Seq<char>) -> Option<Option<usize>>;

/// Parses a document with `scraper::Html::parse_document` and finds the
/// position of the first element that `selector` matches.
/// Trusted: the result is what `first_position_of` names for the two texts.
#[verifier::external_body]
fn first_position(html: &str, selector: &str) -> (res: Option<Option<usize>>)
    ensures
        res == first_position_of(html@, selector@),
{
    let (doc, wanted) = (Html::parse_document(html), Selector::parse(selector).ok()?);
    let pos: HashMap<_, usize> = doc.tree.nodes().enumerate().map(|(i, n)| (n.id(), i)).collect();
    Some(doc.select(&wanted).next().map(|m| pos[&m.id()]))
}

/// A table of optional strings as text.
pub open spec fn values_view(v: Seq<Option<String>>) -> Seq<Option<Seq<char>>> {
    v.map_values(|o: Option<String>| text_of(o))
}

/// What `html_nodes` gives, as plain values.
pub open spec fn nodes_view(rows: Seq<(Vec<Option<String>>, Vec<(String, Vec<Option<String>>, usize)>)>) -> Seq<NodeView> {
    rows.map_values(|r: (Vec<Option<String>>, Vec<(String, Vec<Option<String>>, usize)>)| (
        values_view(r.0@),
        r.1@.map_values(|a: (String, Vec<Option<String>>, usize)| (a.0@, values_view(a.1@), a.2)),
    ))
}

/// Parses a document with `scraper::Html::parse_document` and reads the
/// elements that `selector` matches and their enclosing elements.
/// Trusted: the result is what `html_nodes_of` names for these arguments,
/// with one value for each attribute asked for.
#[verifier::external_body]
fn html_nodes(html: &str, selector: &str, attrs: &Vec<String>)
    -> (res: Option<Vec<(Vec<Option<String>>, Vec<(String, Vec<Option<String>>, usize)>)>>)
    ensures
        match res {
            Some(rows) => html_nodes_of(html@, selector@, attrs@.map_values(|a: String| a@))
                == Some(nodes_view(rows@))
                && forall|i: int| #![trigger rows@[i]] 0 <= i < rows@.len() ==> {
                    &&& rows@[i].0@.len() == attrs@.len()
                    &&& forall|j: int| 0 <= j < rows@[i].1@.len() ==> #[trigger] rows@[i].1@[j].1@.len() == attrs@.len()
                },
            None => html_nodes_of(html@, selector@, attrs@.map_values(|a: String| a@)) is None,
        },
{
    let doc = Html::parse_document(html);
    let pos: HashMap<_, usize> = doc.tree.nodes().enumerate().map(|(i, n)| (n.id(), i)).collect();
    let get = |e: &Element| attrs.iter().map(|n| e.attr(n).map(String::from)).collect();
    Some(doc.select(&Selector::parse(selector).ok()?).map(|el| (get(el.value()), el.ancestors().filter_map(ElementRef::wrap)
        .map(|a| (a.value().name().to_string(), get(a.value()), pos[&a.id()])).collect())).collect())
}

/// The image element of an `img[src]` node read with `img_attrs`; it stands in the primary
/// heading when one of them is at position `heading`.
pub open spec fn img_of_node(n: NodeView, heading: Option<usize>) -> ImgView {
    (
        n.0[0],
        n.0[1],
        n.0[2],
        n.0[3] is Some || n.0[4] is Some,
        match heading {
            Some(h) => exists|k: int| 0 <= k < n.1.len() && #[trigger] n.1[k].2 == h,
            None => false,
        },
        n.1.map_values(|a: (Seq<char>, Seq<Option<Seq<char>>>, usize)| (a.0, a.1[5], a.1[6])),
    )
}

fn clone_values(v: &Vec<Option<String>>) -> (res: Vec<Option<String>>)
    ensures
        values_view(res@) == values_view(v@),
{
    let mut out: Vec<Option<String>> = Vec::new();
    let mut i: usize = 0;
    while i < v.len()
        invariant
            i <= v@.len(),
            values_view(out@) == values_view(v@.take(i as int)),
        decreases v@.len() - i,
    {
        let c = clone_text(&v[i]);
        let ghost before = out@;
        out.push(c);
        assert(values_view(out@) =~= values_view(before).push(text_of(c)));
        assert(v@.take(i + 1) =~= v@.take(i as int).push(v@[i as int]));
        assert(values_view(v@.take(i + 1)) =~= values_view(v@.take(i as int)).push(text_of(v@[i as int])));
        i += 1;
    }
    assert(v@.take(v@.len() as int) == v@);
    out
}

/// The images of the nodes, the primary heading at position `heading`.
pub open spec fn imgs_spec(nodes: Seq<NodeView>, heading: Option<usize>) -> Seq<ImgView> {
    nodes.map_values(|n: NodeView| img_of_node(n, heading))
}

/// Whether one of the enclosing elements is at position `heading`.
fn encloses(ancs: &Vec<(String, Vec<Option<String>>, usize)>, heading: Option<usize>) -> (res: bool)
    ensures
        res == match heading {
            Some(h) => exists|k: int| 0 <= k < ancs@.len() && #[trigger] ancs@[k].2 == h,
            None => false,
        },
{
    let h = match heading {
        Some(h) => h,
        None => return false,
    };
    let mut k: usize = 0;
    while k < ancs.len()
        invariant
            k <= ancs@.len(),
            heading == Some(h),
            forall|j: int| 0 <= j < k ==> #[trigger] ancs@[j].2 != h,
        decreases ancs@.len() - k,
    {
        if ancs[k].2 == h {
            assert(ancs@[k as int].2 == h);
            return true;
        }
        k += 1;
    }
    false
}

fn img_of(row: &(Vec<Option<String>>, Vec<(String, Vec<Option<String>>, usize)>), heading: Option<usize>) -> (res: ImgNode)
    requires
        row.0@.len() == 7,
        forall|j: int| 0 <= j < row.1@.len() ==> #[trigger] row.1@[j].1@.len() == 7,
    ensures
        img_view(res) == img_of_node((
            values_view(row.0@),
            row.1@.map_values(|a: (String, Vec<Option<String>>, usize)| (a.0@, values_view(a.1@), a.2)),
        ), heading),
{
    let in_heading = encloses(&row.1, heading);
    let ghost m = row.1@.map_values(|a: (String, Vec<Option<String>>, usize)| (a.0@, values_view(a.1@), a.2));
    assert(in_heading == match heading {
        Some(h) => exists|k: int| 0 <= k < m.len() && #[trigger] m[k].2 == h,
        None => false,
    }) by {
        if let Some(h) = heading {
            if in_heading {
                let k = choose|k: int| 0 <= k < row.1@.len() && #[trigger] row.1@[k].2 == h;
                assert(m[k].2 == h);
            }
            if exists|k: int| 0 <= k < m.len() && #[trigger] m[k].2 == h {
                let k = choose|k: int| 0 <= k < m.len() && #[trigger] m[k].2 == h;
                assert(row.1@[k].2 == h);
            }
        }
    }
    let ghost node_ancs = row.1@.map_values(|a: (String, Vec<Option<String>>, usize)| (a.0@, values_view(a.1@), a.2));
    let ghost target = node_ancs.map_values(|a: (Seq<char>, Seq<Option<Seq<char>>>, usize)| (a.0, a.1[5], a.1[6]));
    let mut ancestors: Vec<Ancestor> = Vec::new();
    let mut j: usize = 0;
    while j < row.1.len()
        invariant
            j <= row.1@.len(),
            forall|k: int| 0 <= k < row.1@.len() ==> #[trigger] row.1@[k].1@.len() == 7,
            node_ancs == row.1@.map_values(|a: (String, Vec<Option<String>>, usize)| (a.0@, values_view(a.1@), a.2)),
            target == node_ancs.map_values(|a: (Seq<char>, Seq<Option<Seq<char>>>, usize)| (a.0, a.1[5], a.1[6])),
            ancestors@.map_values(|a: Ancestor| ancestor_view(a)) == target.take(j as int),
        decreases row.1@.len() - j,
    {
        let a = &row.1[j];
        let anc = Ancestor { name: a.0.clone(), align: clone_text(&a.1[5]), href: clone_text(&a.1[6]) };
        let ghost before = ancestors@;
        ancestors.push(anc);
        assert(values_view(a.1@)[5] == text_of(a.1@[5]));
        assert(values_view(a.1@)[6] == text_of(a.1@[6]));
        assert(ancestors@.map_values(|a: Ancestor| ancestor_view(a)) =~= before.map_values(|a: Ancestor| ancestor_view(a)).push(ancestor_view(anc)));
        assert(node_ancs[j as int] == (a.0@, values_view(a.1@), a.2));
        assert(target.take(j + 1) =~= target.take(j as int).push(target[j as int]));
        j += 1;
    }
    assert(target.take(row.1@.len() as int) == target);
    let v = &row.0;
    assert(values_view(v@)[3] == text_of(v@[3]));
    assert(values_view(v@)[4] == text_of(v@[4]));
    ImgNode {
        src: clone_text(&v[0]),
        canonical: clone_text(&v[1]),
        alt: clone_text(&v[2]),
        sized: v[3].is_some() || v[4].is_some(),
        in_heading,
        ancestors,
    }
}

fn imgs_of(rows: &Vec<(Vec<Option<String>>, Vec<(String, Vec<Option<String>>, usize)>)>, heading: Option<usize>) -> (res: Vec<ImgNode>)
    requires
        forall|i: int| #![trigger rows@[i]] 0 <= i < rows@.len() ==> {
            &&& rows@[i].0@.len() == 7
            &&& forall|j: int| 0 <= j < rows@[i].1@.len() ==> #[trigger] rows@[i].1@[j].1@.len() == 7
        },
    ensures
        res@.map_values(|i: ImgNode| img_view(i)) == imgs_spec(nodes_view(rows@), heading),
{
    let ghost target = imgs_spec(nodes_view(rows@), heading);
    let mut out: Vec<ImgNode> = Vec::new();
    let mut i: usize = 0;
    while i < rows.len()
        invariant
            i <= rows@.len(),
            forall|k: int| #![trigger rows@[k]] 0 <= k < rows@.len() ==> {
                &&& rows@[k].0@.len() == 7
                &&& forall|j: int| 0 <= j < rows@[k].1@.len() ==> #[trigger] rows@[k].1@[j].1@.len() == 7
            },
            target == imgs_spec(nodes_view(rows@), heading),
            out@.map_values(|i: ImgNode| img_view(i)) == target.take(i as int),
        decreases rows@.len() - i,
    {
        assert(rows@[i as int].0@.len() == 7);
        let img = img_of(&rows[i], heading);
        let ghost before = out@;
        out.push(img);
        assert(nodes_view(rows@)[i as int] == (
            values_view(rows@[i as int].0@),
            rows@[i as int].1@.map_values(|a: (String, Vec<Option<String>>, usize)| (a.0@, values_view(a.1@), a.2)),
        ));
        assert(target.take(i + 1) =~= target.take(i as int).push(target[i as int]));
        assert(out@.map_values(|i: ImgNode| img_view(i)) =~= before.map_values(|i: ImgNode| img_view(i)).push(img_view(img)));
        assert(out@.map_values(|i: ImgNode| img_view(i)) =~= target.take(i + 1));
        i += 1;
    }
    assert(target.take(rows@.len() as int) == target);
    out
}

/// A link plan's view.
pub type PlanView = (bool, bool, Option<(Seq<char>, Seq<char>)>, bool, Option<(Seq<char>, Seq<char>)>);

/// The plan for the link `href` around image `img_src` in the README of
/// `repo`, whose homepage is `homepage`, as `project_link_plan` makes it.
pub open spec fn project_plan_spec(repo: Seq<char>, href: Seq<char>, img_src: Seq<char>, homepage: Option<Seq<char>>) -> PlanView {
    link_plan_spec(
        repo,
        image_page_of(img_src) == Some(href),
        url_domain_of(href),
        match url_path_of(href) { Some(p) => p, None => Seq::<char>::empty() },
        match homepage { Some(h) => url_domain_of(h), None => None },
    )
}

/// The plans of the links around an image: one for each enclosing `a`
/// whose `href` resolves against `href_base`, nearest first.
pub open spec fn plans_spec(
    ancs: Seq<AncView>,
    repo: Seq<char>,
    href_base: Seq<char>,
    img_src: Seq<char>,
    homepage: Option<Seq<char>>,
) -> Seq<PlanView>
    decreases ancs.len(),
{
    if ancs.len() == 0 {
        Seq::empty()
    } else {
        let rest = plans_spec(ancs.drop_last(), repo, href_base, img_src, homepage);
        let a = ancs.last();
        if a.0 == "a"@ {
            match a.2 {
                Some(h) => match url_joined(href_base, h) {
                    Some(u) => rest.push(project_plan_spec(repo, u, img_src, homepage)),
                    None => rest,
                },
                None => rest,
            }
        } else {
            rest
        }
    }
}

/// Whether an enclosing element is centered.
pub open spec fn centered_spec(ancs: Seq<AncView>) -> bool {
    exists|i: int| 0 <= i < ancs.len() && #[trigger] ancs[i].1 == Some("center"@)
}

/// What is known of a README image before the questions about repositories
/// are answered.
#[derive(Debug)]
pub struct ImageDraft {
    /// The address to report: the CDN address when there is one.
    pub src: String,
    /// The image's own address, resolved against the README.
    pub image_src: String,
    pub in_primary_heading: bool,
    pub is_align_center: bool,
    pub has_size_attrs: bool,
    pub keyword_mentions: Vec<KeywordMention>,
    /// The plans of the links around it, nearest first.
    pub plans: Vec<LinkPlan>,
    /// Which repository its address points into, if any (see `repo_file_query`).
    pub from_repo: Option<Option<RepoQuery>>,
}

/// A draft as plain values.
pub open spec fn draft_view(d: ImageDraft) -> (Seq<char>, Seq<char>, bool, bool, bool, Seq<KeywordMention>, Seq<PlanView>, Option<Option<(Seq<char>, Seq<char>)>>) {
    (
        d.src@,
        d.image_src@,
        d.in_primary_heading,
        d.is_align_center,
        d.has_size_attrs,
        d.keyword_mentions@,
        d.plans@.map_values(|p: LinkPlan| plan_view(p)),
        match d.from_repo { Some(q) => Some(query_view(q)), None => None },
    )
}

/// The draft of an image of the README of `repo` (lowercased), whose
/// images resolve against `src_base` and links against `href_base`: `None`
/// when its address does not resolve, `Some(None)` for a badge.
pub open spec fn draft_spec(
    img: ImgView,
    repo: Seq<char>,
    src_base: Seq<char>,
    href_base: Seq<char>,
    homepage: Option<Seq<char>>,
) -> Option<Option<(Seq<char>, Seq<char>, bool, bool, bool, Seq<KeywordMention>, Seq<PlanView>, Option<Option<(Seq<char>, Seq<char>)>>)>> {
    let raw = if img.1 is Some { img.1 } else { img.0 };
    match raw {
        None => None,
        Some(r) => match url_joined(src_base, r) {
            None => None,
            Some(src) => {
                let badge = match (url_domain_of(src), url_path_of(src)) {
                    (Some(d), Some(p)) => is_badge_spec(d, p),
                    _ => false,
                };
                if badge {
                    Some(None)
                } else {
                    let cdn = match (img.1, img.0) {
                        (Some(_), Some(s)) => url_joined(src_base, s),
                        _ => None,
                    };
                    let ancs = img.5;
                    Some(Some((
                        match cdn { Some(c) => c, None => src },
                        src,
                        img.4,
                        centered_spec(ancs),
                        img.3,
                        keyword_mentions_spec(
                            match url_path_of(src) { Some(p) => p, None => Seq::<char>::empty() },
                            img.2,
                            repo,
                        ),
                        plans_spec(ancs, repo, href_base, src, homepage),
                        repo_file_query_spec(src),
                    )))
                }
            },
        },
    }
}

fn link_plans(ancs: &Vec<Ancestor>, repo: &str, href_base: &str, img_src: &str, homepage: Option<&str>) -> (res: Vec<LinkPlan>)
    ensures
        res@.map_values(|p: LinkPlan| plan_view(p)) == plans_spec(
            ancs@.map_values(|a: Ancestor| ancestor_view(a)), repo@, href_base@, img_src@,
            match homepage { Some(h) => Some(h@), None => None::<Seq<char>> },
        ),
{
    let ghost home = match homepage { Some(h) => Some(h@), None => None::<Seq<char>> };
    let ghost av = ancs@.map_values(|a: Ancestor| ancestor_view(a));
    let mut plans: Vec<LinkPlan> = Vec::new();
    let mut i: usize = 0;
    while i < ancs.len()
        invariant
            i <= ancs@.len(),
            home == match homepage { Some(h) => Some(h@), None => None::<Seq<char>> },
            av == ancs@.map_values(|a: Ancestor| ancestor_view(a)),
            plans@.map_values(|p: LinkPlan| plan_view(p)) == plans_spec(av.take(i as int), repo@, href_base@, img_src@, home),
        decreases ancs@.len() - i,
    {
        assert(av.take(i + 1).drop_last() == av.take(i as int));
        assert(av.take(i + 1).last() == av[i as int]);
        assert(av[i as int] == ancestor_view(ancs@[i as int]));
        let a = &ancs[i];
        let ghost before = plans@;
        if same_text(a.name.as_str(), "a") {
            match &a.href {
                Some(h) => match url_join(href_base, h.as_str()) {
                    Some(u) => {
                        let plan = project_link_plan(repo, u.as_str(), img_src, homepage);
                        plans.push(plan);
                        assert(plans@.map_values(|p: LinkPlan| plan_view(p)) =~= before.map_values(|p: LinkPlan| plan_view(p)).push(plan_view(plan)));
                    },
                    None => {},
                },
                None => {},
            }
        }
        i += 1;
    }
    assert(av.take(av.len() as int) == av);
    plans
}

fn any_centered(ancs: &Vec<Ancestor>) -> (res: bool)
    ensures
        res == centered_spec(ancs@.map_values(|a: Ancestor| ancestor_view(a))),
{
    let mut i: usize = 0;
    while i < ancs.len()
        invariant
            i <= ancs@.len(),
            forall|j: int| 0 <= j < i ==> #[trigger] text_of(ancs@[j].align) != Some("center"@),
        decreases ancs@.len() - i,
    {
        match &ancs[i].align {
            Some(a) => {
                if same_text(a.as_str(), "center") {
                    assert(ancs@.map_values(|a: Ancestor| ancestor_view(a))[i as int].1 == Some("center"@));
                    return true;
                }
            },
            None => {},
        }
        i += 1;
    }
    false
}

fn clone_text(o: &Option<String>) -> (res: Option<String>)
    ensures
        text_of(res) == text_of(*o),
{
    match o {
        Some(s) => Some(s.clone()),
        None => None,
    }
}

/// The draft of one image.
pub fn image_draft(img: &ImgNode, repo: &str, src_base: &str, href_base: &str, homepage: Option<&str>) -> (res: Option<Option<ImageDraft>>)
    ensures
        match draft_spec(img_view(*img), repo@, src_base@, href_base@, match homepage { Some(h) => Some(h@), None => None }) {
            None => res is None,
            Some(None) => res matches Some(None),
            Some(Some(v)) => res matches Some(Some(d)) && draft_view(d) == v,
        },
{
    let raw = if img.canonical.is_some() { clone_text(&img.canonical) } else { clone_text(&img.src) };
    let r = match raw {
        None => return None,
        Some(r) => r,
    };
    let src = match url_join(src_base, r.as_str()) {
        None => return None,
        Some(s) => s,
    };
    let badge = match is_badge(src.as_str()) {
        Some(b) => b,
        None => false,
    };
    if badge {
        return Some(None);
    }
    let cdn = match (&img.canonical, &img.src) {
        (Some(_), Some(s)) => url_join(src_base, s.as_str()),
        _ => None,
    };
    let alt = match &img.alt {
        Some(a) => Some(a.as_str()),
        None => None,
    };
    let keyword_mentions = mentions_in(src.as_str(), alt, repo);
    let plans = link_plans(&img.ancestors, repo, href_base, src.as_str(), homepage);
    let from_repo = repo_file_query(src.as_str());
    let in_primary_heading = img.in_heading;
    let is_align_center = any_centered(&img.ancestors);
    let shown = match cdn {
        Some(c) => c,
        None => src.clone(),
    };
    let d = ImageDraft {
        src: shown,
        image_src: src,
        in_primary_heading,
        is_align_center,
        has_size_attrs: img.sized,
        keyword_mentions,
        plans,
        from_repo,
    };
    Some(Some(d))
}

/// The drafts of the images, in order, badges left out; `None` when an
/// image's address does not resolve.
pub open spec fn drafts_spec(
    imgs: Seq<ImgView>,
    repo: Seq<char>,
    src_base: Seq<char>,
    href_base: Seq<char>,
    homepage: Option<Seq<char>>,
) -> Option<Seq<(Seq<char>, Seq<char>, bool, bool, bool, Seq<KeywordMention>, Seq<PlanView>, Option<Option<(Seq<char>, Seq<char>)>>)>>
    decreases imgs.len(),
{
    if imgs.len() == 0 {
        Some(Seq::empty())
    } else {
        match (drafts_spec(imgs.drop_last(), repo, src_base, href_base, homepage), draft_spec(imgs.last(), repo, src_base, href_base, homepage)) {
            (Some(ds), Some(Some(d))) => Some(ds.push(d)),
            (Some(ds), Some(None)) => Some(ds),
            _ => None,
        }
    }
}

/// The drafts of the images of a README.
pub fn image_drafts(imgs: &Vec<ImgNode>, repo: &str, src_base: &str, href_base: &str, homepage: Option<&str>) -> (res: Option<Vec<ImageDraft>>)
    ensures
        match drafts_spec(imgs@.map_values(|i: ImgNode| img_view(i)), repo@, src_base@, href_base@, match homepage { Some(h) => Some(h@), None => None }) {
            None => res is None,
            Some(v) => res matches Some(ds) && ds@.map_values(|d: ImageDraft| draft_view(d)) == v,
        },
{
    let ghost home = match homepage { Some(h) => Some(h@), None => None::<Seq<char>> };
    let ghost iv = imgs@.map_values(|i: ImgNode| img_view(i));
    let mut out: Vec<ImageDraft> = Vec::new();
    let mut i: usize = 0;
    while i < imgs.len()
        invariant
            i <= imgs@.len(),
            home == match homepage { Some(h) => Some(h@), None => None::<Seq<char>> },
            iv == imgs@.map_values(|i: ImgNode| img_view(i)),
            drafts_spec(iv.take(i as int), repo@, src_base@, href_base@, home) == Some(out@.map_values(|d: ImageDraft| draft_view(d))),
        decreases imgs@.len() - i,
    {
        assert(iv.take(i + 1).drop_last() == iv.take(i as int));
        assert(iv.take(i + 1).last() == iv[i as int]);
        assert(iv[i as int] == img_view(imgs@[i as int]));
        let ghost before = out@;
        match image_draft(&imgs[i], repo, src_base, href_base, homepage) {
            None => {
                proof {
                    lemma_drafts_none_extends(iv, repo@, src_base@, href_base@, home, i as int + 1);
                }
                return None;
            },
            Some(None) => {},
            Some(Some(d)) => {
                out.push(d);
                assert(out@.map_values(|d: ImageDraft| draft_view(d)) =~= before.map_values(|d: ImageDraft| draft_view(d)).push(draft_view(d)));
            },
        }
        i += 1;
    }
    assert(iv.take(iv.len() as int) == iv);
    Some(out)
}

proof fn lemma_drafts_none_extends(
    imgs: Seq<ImgView>,
    repo: Seq<char>,
    src_base: Seq<char>,
    href_base: Seq<char>,
    homepage: Option<Seq<char>>,
    k: int,
)
    requires
        0 <= k <= imgs.len(),
        drafts_spec(imgs.take(k), repo, src_base, href_base, homepage) is None,
    ensures
        drafts_spec(imgs, repo, src_base, href_base, homepage) is None,
    decreases imgs.len() - k,
{
    if k == imgs.len() {
        assert(imgs.take(k) == imgs);
    } else {
        assert(imgs.take(k + 1).drop_last() == imgs.take(k));
        lemma_drafts_none_extends(imgs, repo, src_base, href_base, homepage, k + 1);
    }
}

/// The attributes read of a README's images and of the elements that
/// enclose them: the image's `src`, `data-canonical-src`, `alt`, `width` and
/// `height`, and an enclosing element's `align` and `href`.
pub open spec fn img_attrs() -> Seq<Seq<char>> {
    seq!["src"@, "data-canonical-src"@, "alt"@, "width"@, "height"@, "align"@, "href"@]
}

/// The README images of `owner/repo` whose homepage is `homepage`, read
/// from the README's HTML, as drafts; the primary heading is the first
/// `h1`. `None` when an image's address does not resolve against the README.
pub fn readme_drafts(html: &str, owner: &str, repo: &str, homepage: Option<&str>) -> (res: Option<Vec<ImageDraft>>)
    ensures
        match (html_nodes_of(html@, "img[src]"@, img_attrs()), first_position_of(html@, "h1"@)) {
            (Some(nodes), Some(heading)) => match drafts_spec(
                imgs_spec(nodes, heading),
                lowercase(repo@),
                readme_bases_spec(owner@, repo@).1,
                readme_bases_spec(owner@, repo@).0,
                match homepage { Some(h) => Some(h@), None => None },
            ) {
                None => res is None,
                Some(v) => res matches Some(ds) && ds@.map_values(|d: ImageDraft| draft_view(d)) == v,
            },
            _ => res is None,
        },
{
    let attrs = vec![
        "src".to_string(),
        "data-canonical-src".to_string(),
        "alt".to_string(),
        "width".to_string(),
        "height".to_string(),
        "align".to_string(),
        "href".to_string(),
    ];
    assert(attrs@.map_values(|a: String| a@) =~= img_attrs());
    let rows = match html_nodes(html, "img[src]", &attrs) {
        None => return None,
        Some(r) => r,
    };
    let heading = match first_position(html, "h1") {
        None => return None,
        Some(h) => h,
    };
    let imgs = imgs_of(&rows, heading);
    let names = RepoQuery::new(owner, repo);
    let (href_base, src_base) = readme_bases(owner, repo);
    image_drafts(&imgs, names.repo.as_str(), src_base.as_str(), href_base.as_str(), homepage)
}

/// The answers to a draft's questions: for each of its link plans, whether
/// the GitHub Pages repository and the GitHub repository it asks about are
/// this one; and whether the repository its address points into is.
#[derive(Debug)]
pub struct DraftAnswers {
    pub links: Vec<(bool, bool)>,
    pub from_repo: bool,
}

/// The `k`th answer; both no when there is none.
pub open spec fn answer_at(links: Seq<(bool, bool)>, k: int) -> (bool, bool) {
    if 0 <= k < links.len() {
        links[k]
    } else {
        (false, false)
    }
}

/// The link decided by the first of the first `n` plans that decides one.
pub open spec fn first_link(plans: Seq<PlanView>, links: Seq<(bool, bool)>, n: nat) -> Option<ProjectLink>
    decreases n,
{
    if n == 0 {
        None
    } else {
        match first_link(plans, links, (n - 1) as nat) {
            Some(l) => Some(l),
            None => decide_link_spec(plans[n - 1], answer_at(links, n - 1).0, answer_at(links, n - 1).1),
        }
    }
}

/// The image that a draft and its answers (none: every answer no) make.
pub open spec fn image_spec(d: ImageDraft, a: Option<DraftAnswers>) -> ReadmeImage {
    let links = match a { Some(x) => x.links@, None => Seq::empty() };
    ReadmeImage {
        src: d.src,
        in_primary_heading: d.in_primary_heading,
        edge_of_primary_heading: false,
        keyword_mentions: d.keyword_mentions,
        came_from_repo: (d.from_repo matches Some(Some(_))) && (a matches Some(x) && x.from_repo),
        link: first_link(d.plans@.map_values(|p: LinkPlan| plan_view(p)), links, d.plans@.len()),
        is_align_center: d.is_align_center,
        has_size_attrs: d.has_size_attrs,
    }
}

/// The images that the drafts and their answers make, in order.
pub open spec fn built_spec(drafts: Seq<ImageDraft>, answers: Seq<DraftAnswers>) -> Seq<ReadmeImage> {
    Seq::new(drafts.len(), |i: int| image_spec(drafts[i], if i < answers.len() { Some(answers[i]) } else { None }))
}

fn decide_first(plans: &Vec<LinkPlan>, links: &Vec<(bool, bool)>) -> (res: Option<ProjectLink>)
    ensures
        res == first_link(plans@.map_values(|p: LinkPlan| plan_view(p)), links@, plans@.len()),
{
    let ghost pv = plans@.map_values(|p: LinkPlan| plan_view(p));
    let mut found: Option<ProjectLink> = None;
    let mut k: usize = 0;
    while k < plans.len()
        invariant
            k <= plans@.len(),
            pv == plans@.map_values(|p: LinkPlan| plan_view(p)),
            found == first_link(pv, links@, k as nat),
        decreases plans@.len() - k,
    {
        if found.is_none() {
            let (pages_same, repo_same) = if k < links.len() { links[k] } else { (false, false) };
            assert(pv[k as int] == plan_view(plans@[k as int]));
            found = decide_link(&plans[k], pages_same, repo_same);
        }
        k += 1;
    }
    found
}

fn copy_links(links: &Vec<(bool, bool)>) -> (res: Vec<(bool, bool)>)
    ensures
        res@ == links@,
{
    let mut out: Vec<(bool, bool)> = Vec::new();
    let mut i: usize = 0;
    while i < links.len()
        invariant
            i <= links@.len(),
            out@ == links@.take(i as int),
        decreases links@.len() - i,
    {
        out.push(links[i]);
        i += 1;
        assert(out@ =~= links@.take(i as int));
    }
    assert(links@.take(links@.len() as int) == links@);
    out
}

/// The README's images from their drafts and the answers to their questions
/// (a missing answer counts as no), the likeliest icon first: each image
/// takes the link decided by the first of its link plans that decides one,
/// and comes from the repository when its address points into a repository
/// that is this one; the heading edges are then marked and the images ranked.
pub fn finish_images(drafts: Vec<ImageDraft>, answers: &Vec<DraftAnswers>) -> (res: Vec<ReadmeImage>)
    ensures
        stable_sorted_desc(mark_edges_spec(built_spec(drafts@, answers@)), res@),
        res@.to_multiset() == mark_edges_spec(built_spec(drafts@, answers@)).to_multiset(),
{
    let ghost input = drafts@;
    let ghost target = built_spec(drafts@, answers@);
    let total = drafts.len();
    let mut rest = drafts;
    let mut images: Vec<ReadmeImage> = Vec::new();
    let mut n: usize = 0;
    while rest.len() > 0
        invariant
            n + rest@.len() == input.len(),
            total == input.len(),
            rest@ == input.skip(n as int),
            target == built_spec(input, answers@),
            images@ == target.take(n as int),
        decreases rest@.len(),
    {
        let d = rest.remove(0);
        assert(d == input[n as int]);
        let (links, from_repo_answer) = if n < answers.len() {
            (copy_links(&answers[n].links), answers[n].from_repo)
        } else {
            (Vec::new(), false)
        };
        assert(n < answers@.len() ==> links@ == answers@[n as int].links@);
        assert(n >= answers@.len() ==> links@ =~= Seq::<(bool, bool)>::empty());
        let link = decide_first(&d.plans, &links);
        let came_from_repo = match &d.from_repo {
            Some(Some(_)) => from_repo_answer,
            _ => false,
        };
        let img = ReadmeImage {
            src: d.src,
            in_primary_heading: d.in_primary_heading,
            edge_of_primary_heading: false,
            keyword_mentions: d.keyword_mentions,
            came_from_repo,
            link,
            is_align_center: d.is_align_center,
            has_size_attrs: d.has_size_attrs,
        };
        assert(img == target[n as int]);
        images.push(img);
        n += 1;
        assert(images@ =~= target.take(n as int));
        assert(rest@ =~= input.skip(n as int));
    }
    assert(target.take(n as int) == target);
    rank_images(images)
}

} // verus!
