use crate::sort::{stable_sort_desc, stable_sorted_desc, SortKey};
use crate::text::{chars_of, contains_chars, contains_spec, lowercase, to_lowercase};
use crate::web::{url_path, url_path_of};
use core::cmp::Ordering;
use vstd::prelude::*;

verus! {

/// What an image in a README links to.
#[derive(Debug, Clone, Copy, PartialEq, Eq, Structural)]
pub enum ProjectLink {
    /// The project's website.
    Website,
    /// The project's repository.
    Repo,
}

/// A word that an image's address or alt text mentions.
#[derive(Debug, Clone, Copy, PartialEq, Eq, Hash, Structural)]
pub enum KeywordMention {
    Logo,
    Banner,
    RepoName,
}

/// An image found in a README, with what is known of where it stands.
#[derive(Debug)]
pub struct ReadmeImage {
    pub src: String,
    /// whether the image was in the primary markdown heading
    pub in_primary_heading: bool,
    /// whether the image was the first/last one in the heading
    pub edge_of_primary_heading: bool,
    /// the keywords that the image mentions in its src / alt text, each at most once
    pub keyword_mentions: Vec<KeywordMention>,
    /// whether the image src points to a file inside of the repo
    pub came_from_repo: bool,
    /// whether the image has links to the projects
    pub link: Option<ProjectLink>,
    /// whether the image has the CSS "align: center"
    pub is_align_center: bool,
    /// whether the image has height or width attributes
    pub has_size_attrs: bool,
}

/// The score of an image: how likely it is the project's icon.
pub open spec fn weight_spec(img: ReadmeImage) -> int {
    let heading: int = if img.in_primary_heading {
        2 + (if img.is_align_center { 2int } else { 0int })
            + (if img.has_size_attrs { 2int } else { 0int })
            + (if img.came_from_repo { 4int } else { 0int })
    } else {
        0
    };
    let edge: int = if img.edge_of_primary_heading { 4 } else { 0 };
    let link: int = match img.link {
        Some(ProjectLink::Website) => 8,
        Some(ProjectLink::Repo) => 4,
        None => 0,
    };
    let mentions = img.keyword_mentions@;
    let logo: int = if mentions.contains(KeywordMention::Logo) { 16 } else { 0 };
    let banner: int = if mentions.contains(KeywordMention::Banner) { 8 } else { 0 };
    let name: int = if mentions.contains(KeywordMention::RepoName) { 4 } else { 0 };
    heading + edge + link + logo + banner + name
}

/// Whether `m` is among the mentions.
fn has_mention(mentions: &Vec<KeywordMention>, m: KeywordMention) -> (res: bool)
    ensures
        res == mentions@.contains(m),
{
    let mut i: usize = 0;
    while i < mentions.len()
        invariant
            i <= mentions.len(),
            forall|j: int| 0 <= j < i ==> mentions@[j] != m,
        decreases mentions.len() - i,
    {
        if mentions[i] == m {
            return true;
        }
        i += 1;
    }
    false
}

impl ReadmeImage {
    /// The score of the image: points for standing in the primary heading
    /// (more when centered, sized or from the repo), for being at an edge of
    /// the heading, for linking to the project and for mentioning keywords.
    pub fn weight(&self) -> (res: u8)
        ensures
            res as int == weight_spec(*self),
    {
        let mut weight: u8 = 0;

        if self.in_primary_heading {
            weight += 2;

            if self.is_align_center {
                weight += 2;
            }

            if self.has_size_attrs {
                weight += 2;
            }

            if self.came_from_repo {
                weight += 4;
            }
        }

        if self.edge_of_primary_heading {
            weight += 4;
        }

        match self.link {
            Some(ProjectLink::Website) => {
                weight += 8;
            },
            Some(ProjectLink::Repo) => {
                weight += 4;
            },
            None => {},
        }

        if has_mention(&self.keyword_mentions, KeywordMention::Logo) {
            weight += 16;
        }

        if has_mention(&self.keyword_mentions, KeywordMention::Banner) {
            weight += 8;
        }

        if has_mention(&self.keyword_mentions, KeywordMention::RepoName) {
            weight += 4;
        }

        weight
    }
}

impl SortKey for ReadmeImage {
    open spec fn sort_key(&self) -> int {
        weight_spec(*self)
    }

    fn key(&self) -> (k: u64) {
        let w = self.weight();
        w as u64
    }
}

/// How two images order: the one with the greater weight comes first.
pub open spec fn image_order(a: ReadmeImage, b: ReadmeImage) -> Ordering {
    if weight_spec(b) < weight_spec(a) {
        Ordering::Less
    } else if weight_spec(b) == weight_spec(a) {
        Ordering::Equal
    } else {
        Ordering::Greater
    }
}

impl ReadmeImage {
    /// Orders images so that the one with the greater weight comes first.
    pub fn cmp(&self, other: &Self) -> (res: Ordering)
        ensures
            res == image_order(*self, *other),
    {
        let mine = self.weight();
        let theirs = other.weight();
        if theirs < mine {
            Ordering::Less
        } else if theirs == mine {
            Ordering::Equal
        } else {
            Ordering::Greater
        }
    }

    /// The same order as `cmp`, always defined.
    pub fn partial_cmp(&self, other: &Self) -> (res: Option<Ordering>)
        ensures
            res == Some(image_order(*self, *other)),
    {
        Some(self.cmp(other))
    }
}


/// The image with its edge flag set to `edge`.
pub open spec fn with_edge(img: ReadmeImage, edge: bool) -> ReadmeImage {
    ReadmeImage {
        src: img.src,
        in_primary_heading: img.in_primary_heading,
        edge_of_primary_heading: edge,
        keyword_mentions: img.keyword_mentions,
        came_from_repo: img.came_from_repo,
        link: img.link,
        is_align_center: img.is_align_center,
        has_size_attrs: img.has_size_attrs,
    }
}

/// Whether the `i`th image is at an edge of the primary heading: it stands in
/// the heading and no earlier image, or no later image, stands in it (or it
/// was marked already).
pub open spec fn at_heading_edge(images: Seq<ReadmeImage>, i: int) -> bool {
    images[i].edge_of_primary_heading || (images[i].in_primary_heading && (
        (forall|j: int| 0 <= j < i ==> !#[trigger] images[j].in_primary_heading)
        || (forall|j: int| i < j < images.len() ==> !#[trigger] images[j].in_primary_heading)))
}

/// The images with their heading edges marked.
pub open spec fn mark_edges_spec(images: Seq<ReadmeImage>) -> Seq<ReadmeImage> {
    Seq::new(images.len(), |i: int| with_edge(images[i], at_heading_edge(images, i)))
}

/// Marks the images at the edges of the primary heading, then orders the
/// images by weight, heaviest first, images of equal weight in README order.
pub fn rank_images(images: Vec<ReadmeImage>) -> (res: Vec<ReadmeImage>)
    ensures
        stable_sorted_desc(mark_edges_spec(images@), res@),
        res@.to_multiset() == mark_edges_spec(images@).to_multiset(),
{
    let ghost input = images@;
    let n = images.len();
    let mut in_heading: Vec<bool> = Vec::new();
    let mut i: usize = 0;
    while i < n
        invariant
            n == images@.len(),
            i <= n,
            in_heading@.len() == i,
            forall|j: int| 0 <= j < i ==> in_heading@[j] == images@[j].in_primary_heading,
        decreases n - i,
    {
        in_heading.push(images[i].in_primary_heading);
        i += 1;
    }
    // The first and one past the last image of the heading.
    let mut first: usize = 0;
    while first < n && !in_heading[first]
        invariant
            first <= n,
            in_heading@.len() == n,
            forall|j: int| 0 <= j < first ==> !#[trigger] in_heading@[j],
        decreases n - first,
    {
        first += 1;
    }
    let mut end: usize = n;
    while end > 0 && !in_heading[end - 1]
        invariant
            end <= n,
            in_heading@.len() == n,
            forall|j: int| end <= j < n ==> !#[trigger] in_heading@[j],
        decreases end,
    {
        end -= 1;
    }
    let mut rest = images;
    let mut marked: Vec<ReadmeImage> = Vec::new();
    let mut k: usize = 0;
    while k < n
        invariant
            n == input.len(),
            k <= n,
            in_heading@.len() == n,
            forall|j: int| 0 <= j < n ==> in_heading@[j] == input[j].in_primary_heading,
            first <= n,
            first < n ==> in_heading@[first as int],
            forall|j: int| 0 <= j < first ==> !#[trigger] in_heading@[j],
            end <= n,
            end > 0 ==> in_heading@[end - 1],
            forall|j: int| end <= j < n ==> !#[trigger] in_heading@[j],
            rest@ == input.skip(k as int),
            marked@ == mark_edges_spec(input).take(k as int),
        decreases n - k,
    {
        let mut img = rest.remove(0);
        assert(img == input[k as int]);
        let edge = img.edge_of_primary_heading || (in_heading[k] && (k == first || k + 1 == end));
        proof {
            let ki = k as int;
            if in_heading@[ki] {
                assert(first <= k) by {
                    if k < first {
                        assert(!in_heading@[ki]);
                    }
                }
                assert(k < end) by {
                    if end <= k {
                        assert(!in_heading@[ki]);
                    }
                }
                if k == first {
                    assert forall|j: int| 0 <= j < ki implies !#[trigger] input[j].in_primary_heading by {
                        assert(!in_heading@[j]);
                    }
                } else {
                    assert(in_heading@[first as int]);
                    assert(input[first as int].in_primary_heading);
                }
                if k + 1 == end {
                    assert forall|j: int| ki < j < input.len() implies !#[trigger] input[j].in_primary_heading by {
                        assert(!in_heading@[j]);
                    }
                } else {
                    assert(in_heading@[end - 1]);
                    assert(input[end - 1].in_primary_heading);
                }
            }
            assert(edge == at_heading_edge(input, ki));
        }
        img.edge_of_primary_heading = edge;
        marked.push(img);
        k += 1;
        assert(marked@ =~= mark_edges_spec(input).take(k as int));
    }
    assert(mark_edges_spec(input).take(n as int) == mark_edges_spec(input));
    stable_sort_desc(marked)
}

/// The keywords that an image mentions: `logo` and `banner` in its lowercased
/// path or alt text, and the repository's name.
pub open spec fn keyword_mentions_spec(src_path: Seq<char>, alt: Option<Seq<char>>, repo: Seq<char>) -> Seq<KeywordMention> {
    let src = lowercase(src_path);
    let alt = match alt {
        Some(a) => lowercase(a),
        None => Seq::<char>::empty(),
    };
    let logo = seq!['l', 'o', 'g', 'o'];
    let banner = seq!['b', 'a', 'n', 'n', 'e', 'r'];
    (if contains_spec(src, logo) || contains_spec(alt, logo) { seq![KeywordMention::Logo] } else { Seq::empty() })
        + (if contains_spec(src, banner) || contains_spec(alt, banner) { seq![KeywordMention::Banner] } else { Seq::empty() })
        + (if contains_spec(src, repo) || contains_spec(alt, repo) { seq![KeywordMention::RepoName] } else { Seq::empty() })
}

/// Finds the keywords that an image mentions in its path or alt text, for the
/// repository named `repo` (already lowercased).
pub fn find_keyword_mentions(src_path: &str, alt: Option<&str>, repo: &str) -> (res: Vec<KeywordMention>)
    ensures
        res@ == keyword_mentions_spec(src_path@, match alt { Some(a) => Some(a@), None => None }, repo@),
{
    let src_lower = to_lowercase(src_path);
    let src = chars_of(src_lower.as_str());
    let alt_chars: Vec<char> = match alt {
        Some(a) => {
            let lower = to_lowercase(a);
            chars_of(lower.as_str())
        },
        None => Vec::new(),
    };
    let repo_chars = chars_of(repo);
    let logo = vec!['l', 'o', 'g', 'o'];
    let banner = vec!['b', 'a', 'n', 'n', 'e', 'r'];
    let mut mentions: Vec<KeywordMention> = Vec::new();
    if contains_chars(src.as_slice(), logo.as_slice()) || contains_chars(alt_chars.as_slice(), logo.as_slice()) {
        mentions.push(KeywordMention::Logo);
    }
    let ghost after_logo = mentions@;
    if contains_chars(src.as_slice(), banner.as_slice()) || contains_chars(alt_chars.as_slice(), banner.as_slice()) {
        mentions.push(KeywordMention::Banner);
    }
    let ghost after_banner = mentions@;
    if contains_chars(src.as_slice(), repo_chars.as_slice()) || contains_chars(alt_chars.as_slice(), repo_chars.as_slice()) {
        mentions.push(KeywordMention::RepoName);
    }
    assert(logo@ == seq!['l', 'o', 'g', 'o']);
    assert(banner@ == seq!['b', 'a', 'n', 'n', 'e', 'r']);
    assert(mentions@ =~= keyword_mentions_spec(src_path@, match alt { Some(a) => Some(a@), None => None }, repo@));
    mentions
}


/// Finds the keywords that the image at address `src` mentions in its path
/// (none when the address has no path) or alt text.
pub fn mentions_in(src: &str, alt: Option<&str>, repo: &str) -> (res: Vec<KeywordMention>)
    ensures
        res@ == keyword_mentions_spec(
            match url_path_of(src@) { Some(p) => p, None => Seq::<char>::empty() },
            match alt { Some(a) => Some(a@), None => None },
            repo@,
        ),
{
    let path = match url_path(src) {
        Some(p) => p,
        None => String::new(),
    };
    find_keyword_mentions(path.as_str(), alt, repo)
}

/// An image scores between 0 and 50, so its weight fits a `u8`.
pub proof fn lemma_weight_bounds(img: ReadmeImage)
    ensures
        0 <= weight_spec(img) <= 50,
{
}

/// How much a link counts: none, the repository, the website.
pub open spec fn link_rank(l: Option<ProjectLink>) -> int {
    match l {
        None => 0,
        Some(ProjectLink::Repo) => 1,
        Some(ProjectLink::Website) => 2,
    }
}

/// Whether `b` shows at least every sign of being the icon that `a` shows:
/// each flag of `a` that is set is set in `b`, `b` mentions every keyword
/// `a` mentions, and `b`'s link counts at least as much.
pub open spec fn at_least_as_likely(a: ReadmeImage, b: ReadmeImage) -> bool {
    &&& a.in_primary_heading ==> b.in_primary_heading
    &&& a.edge_of_primary_heading ==> b.edge_of_primary_heading
    &&& a.came_from_repo ==> b.came_from_repo
    &&& a.is_align_center ==> b.is_align_center
    &&& a.has_size_attrs ==> b.has_size_attrs
    &&& forall|m: KeywordMention| a.keyword_mentions@.contains(m) ==> b.keyword_mentions@.contains(m)
    &&& link_rank(a.link) <= link_rank(b.link)
}

/// The weight of an image, counted sign by sign.
pub open spec fn weight_parts(img: ReadmeImage) -> (int, int, int, int, int) {
    let heading: int = if img.in_primary_heading {
        2 + (if img.is_align_center { 2int } else { 0int })
            + (if img.has_size_attrs { 2int } else { 0int })
            + (if img.came_from_repo { 4int } else { 0int })
    } else {
        0
    };
    let edge: int = if img.edge_of_primary_heading { 4 } else { 0 };
    let link: int = match img.link {
        Some(ProjectLink::Website) => 8,
        Some(ProjectLink::Repo) => 4,
        None => 0,
    };
    let m = img.keyword_mentions@;
    let mentions: int = (if m.contains(KeywordMention::Logo) { 16int } else { 0int })
        + (if m.contains(KeywordMention::Banner) { 8int } else { 0int })
        + (if m.contains(KeywordMention::RepoName) { 4int } else { 0int });
    (heading, edge, link, mentions, heading + edge + link + mentions)
}

/// An image that shows at least every sign another shows weighs at least as
/// much; so the weight does not depend on the address.
pub proof fn lemma_weight_monotone(a: ReadmeImage, b: ReadmeImage)
    requires
        at_least_as_likely(a, b),
    ensures
        weight_spec(a) <= weight_spec(b),
{
    let pa = weight_parts(a);
    let pb = weight_parts(b);
    assert(weight_spec(a) == pa.4);
    assert(weight_spec(b) == pb.4);
    assert(pa.0 <= pb.0);
    assert(pa.1 <= pb.1);
    assert(pa.2 <= pb.2);
    if a.keyword_mentions@.contains(KeywordMention::Logo) {
        assert(b.keyword_mentions@.contains(KeywordMention::Logo));
    }
    if a.keyword_mentions@.contains(KeywordMention::Banner) {
        assert(b.keyword_mentions@.contains(KeywordMention::Banner));
    }
    if a.keyword_mentions@.contains(KeywordMention::RepoName) {
        assert(b.keyword_mentions@.contains(KeywordMention::RepoName));
    }
    assert(pa.3 <= pb.3);
}

/// Every weight is even.
pub proof fn lemma_weight_even(img: ReadmeImage)
    ensures
        weight_spec(img) % 2 == 0,
{
    let p = weight_parts(img);
    assert(weight_spec(img) == p.4);
    assert(p.0 % 2 == 0 && p.1 % 2 == 0 && p.2 % 2 == 0 && p.3 % 2 == 0);
}

/// Swapping two images reverses their order.
pub proof fn lemma_image_order_antisymmetric(a: ReadmeImage, b: ReadmeImage)
    ensures
        image_order(a, b) == Ordering::Less <==> image_order(b, a) == Ordering::Greater,
        image_order(a, b) == Ordering::Equal <==> image_order(b, a) == Ordering::Equal,
{
}

/// Marking keeps every image but its edge flag; it marks the first and the
/// last image of the heading, and never unmarks one.
pub proof fn lemma_mark_edges(images: Seq<ReadmeImage>, i: int)
    requires
        0 <= i < images.len(),
    ensures
        mark_edges_spec(images).len() == images.len(),
        mark_edges_spec(images)[i].src == images[i].src,
        mark_edges_spec(images)[i].in_primary_heading == images[i].in_primary_heading,
        mark_edges_spec(images)[i].keyword_mentions == images[i].keyword_mentions,
        mark_edges_spec(images)[i].link == images[i].link,
        images[i].edge_of_primary_heading ==> mark_edges_spec(images)[i].edge_of_primary_heading,
        !images[i].in_primary_heading ==> mark_edges_spec(images)[i].edge_of_primary_heading == images[i].edge_of_primary_heading,
        images[i].in_primary_heading && (forall|j: int| 0 <= j < i ==> !#[trigger] images[j].in_primary_heading)
            ==> mark_edges_spec(images)[i].edge_of_primary_heading,
        images[i].in_primary_heading && (forall|j: int| i < j < images.len() ==> !#[trigger] images[j].in_primary_heading)
            ==> mark_edges_spec(images)[i].edge_of_primary_heading,
        !images[i].edge_of_primary_heading && (exists|j: int| 0 <= j < i && #[trigger] images[j].in_primary_heading)
            && (exists|j: int| i < j < images.len() && #[trigger] images[j].in_primary_heading)
            ==> !mark_edges_spec(images)[i].edge_of_primary_heading,
{
}

} // verus!
