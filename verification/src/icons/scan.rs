use crate::icons::page::IconRef;
use vstd::prelude::*;

verus! {

/// For each element of the HTML document `html` that the CSS selector
/// `selector` matches, in document order, the values of the attributes
/// `attrs` (`None` for an attribute it lacks), as `lol_html` finds them;
/// `None` when the selector is not one `lol_html` reads or rewriting fails.
pub uninterp spec fn html_attrs_of(html: Seq<u8>, selector: Seq<char>, attrs: Seq<Seq<char>>) -> Option<Seq<Seq<Option<Seq<char>>>>>;

/// The text of an optional string.
pub open spec fn opt_view(o: Option<String>) -> Option<Seq<char>> {
    match o {
        Some(s) => Some(s@),
        None => None,
    }
}

/// The text of a table of optional strings.
pub open spec fn rows_view(rows: Seq<Vec<Option<String>>>) -> Seq<Seq<Option<Seq<char>>>> {
    rows.map_values(|row: Vec<Option<String>>| row@.map_values(|o: Option<String>| opt_view(o)))
}

/// Runs `lol_html` over `html` and reads the attributes `attrs` of each
/// element that `selector` matches.
/// Trusted: the result is what `html_attrs_of` names for these arguments,
/// and each row holds one value per attribute asked for.
#[verifier::external_body]
fn html_attrs(html: &[u8], selector: &str, attrs: &Vec<String>) -> (res: Option<Vec<Vec<Option<String>>>>)
    ensures
        match res {
            Some(rows) => html_attrs_of(html@, selector@, attrs@.map_values(|a: String| a@)) == Some(rows_view(rows@))
                && forall|i: int| 0 <= i < rows@.len() ==> #[trigger] rows@[i]@.len() == attrs@.len(),
            None => html_attrs_of(html@, selector@, attrs@.map_values(|a: String| a@)) is None,
        },
{
    let sel: lol_html::Selector = selector.parse().ok()?;
    let mut rows: Vec<Vec<Option<String>>> = Vec::new();
    let on_element = |el: &mut lol_html::html_content::Element<'_, '_>| -> lol_html::HandlerResult {
        rows.push(attrs.iter().map(|a| el.get_attribute(a)).collect());
        Ok(())
    };
    let handler = (std::borrow::Cow::Owned(sel), lol_html::ElementContentHandlers::default().element(on_element));
    let mut rewriter = lol_html::HtmlRewriter::new(lol_html::Settings::new().append_element_content_handler(handler), |_: &[u8]| {});
    rewriter.write(html).ok()?;
    rewriter.end().ok()?;
    Some(rows)
}

/// The selector of a page's icon links.
pub open spec fn icon_link_selector() -> Seq<char> {
    "link[rel='icon'],link[rel='shortcut icon'],link[rel='apple-touch-icon'],link[rel='apple-touch-icon-precomposed']"@
}

/// The selector of the images in a page's header.
pub open spec fn logo_selector() -> Seq<char> {
    "header img"@
}

/// The selector of a page's manifest link.
pub open spec fn manifest_selector() -> Seq<char> {
    "link[rel='manifest']"@
}

/// The icon links of rows of `href` and `sizes`: those with an `href`, in
/// order, with their sizes.
pub open spec fn links_spec(rows: Seq<Seq<Option<Seq<char>>>>) -> Seq<(Seq<char>, Option<Seq<char>>)>
    decreases rows.len(),
{
    if rows.len() == 0 {
        Seq::empty()
    } else {
        let rest = links_spec(rows.drop_last());
        match rows.last()[0] {
            Some(h) => rest.push((h, rows.last()[1])),
            None => rest,
        }
    }
}

/// The first value of the first column that is present.
pub open spec fn first_value(rows: Seq<Seq<Option<Seq<char>>>>) -> Option<Seq<char>>
    decreases rows.len(),
{
    if rows.len() == 0 {
        None
    } else {
        match first_value(rows.drop_last()) {
            Some(v) => Some(v),
            None => rows.last()[0],
        }
    }
}

/// The last value of the first column that is present.
pub open spec fn last_value(rows: Seq<Seq<Option<Seq<char>>>>) -> Option<Seq<char>>
    decreases rows.len(),
{
    if rows.len() == 0 {
        None
    } else {
        match rows.last()[0] {
            Some(v) => Some(v),
            None => last_value(rows.drop_last()),
        }
    }
}

/// The icon references that a page holds.
#[derive(Debug)]
pub struct PageRefs {
    /// The icon links, in document order, with their sizes.
    pub links: Vec<IconRef>,
    /// The first image of the header that has a `src`.
    pub logo: Option<IconRef>,
    /// The `href` of the last manifest link that has one.
    pub manifest: Option<String>,
}

/// The address and sizes of each reference.
pub open spec fn refs_view(r: Seq<IconRef>) -> Seq<(Seq<char>, Option<Seq<char>>)> {
    r.map_values(|x: IconRef| (x.href@, opt_view(x.sizes)))
}

fn links_of(rows: &Vec<Vec<Option<String>>>) -> (res: Vec<IconRef>)
    requires
        forall|i: int| 0 <= i < rows@.len() ==> #[trigger] rows@[i]@.len() == 2,
    ensures
        refs_view(res@) == links_spec(rows_view(rows@)),
{
    let ghost all = rows_view(rows@);
    let mut out: Vec<IconRef> = Vec::new();
    let mut i: usize = 0;
    while i < rows.len()
        invariant
            i <= rows@.len(),
            all == rows_view(rows@),
            forall|k: int| 0 <= k < rows@.len() ==> #[trigger] rows@[k]@.len() == 2,
            refs_view(out@) == links_spec(all.take(i as int)),
        decreases rows@.len() - i,
    {
        assert(all.take(i + 1).drop_last() == all.take(i as int));
        assert(all.take(i + 1).last() == all[i as int]);
        let row = &rows[i];
        assert(all[i as int] == row@.map_values(|o: Option<String>| opt_view(o)));
        let ghost before = out@;
        match &row[0] {
            Some(h) => {
                out.push(IconRef { href: h.clone(), sizes: row[1].clone() });
                assert(refs_view(out@) =~= refs_view(before).push((h@, opt_view(row@[1]))));
            },
            None => {},
        }
        i += 1;
    }
    assert(all.take(rows@.len() as int) == all);
    out
}

fn first_of(rows: &Vec<Vec<Option<String>>>) -> (res: Option<String>)
    requires
        forall|i: int| 0 <= i < rows@.len() ==> #[trigger] rows@[i]@.len() == 1,
    ensures
        opt_view(res) == first_value(rows_view(rows@)),
{
    let ghost all = rows_view(rows@);
    let mut found: Option<String> = None;
    let mut i: usize = 0;
    while i < rows.len()
        invariant
            i <= rows@.len(),
            all == rows_view(rows@),
            forall|k: int| 0 <= k < rows@.len() ==> #[trigger] rows@[k]@.len() == 1,
            opt_view(found) == first_value(all.take(i as int)),
        decreases rows@.len() - i,
    {
        assert(all.take(i + 1).drop_last() == all.take(i as int));
        assert(all.take(i + 1).last() == all[i as int]);
        let row = &rows[i];
        assert(all[i as int] == row@.map_values(|o: Option<String>| opt_view(o)));
        if found.is_none() {
            found = row[0].clone();
        }
        i += 1;
    }
    assert(all.take(rows@.len() as int) == all);
    found
}

fn last_of(rows: &Vec<Vec<Option<String>>>) -> (res: Option<String>)
    requires
        forall|i: int| 0 <= i < rows@.len() ==> #[trigger] rows@[i]@.len() == 1,
    ensures
        opt_view(res) == last_value(rows_view(rows@)),
{
    let ghost all = rows_view(rows@);
    let mut found: Option<String> = None;
    let mut i: usize = 0;
    while i < rows.len()
        invariant
            i <= rows@.len(),
            all == rows_view(rows@),
            forall|k: int| 0 <= k < rows@.len() ==> #[trigger] rows@[k]@.len() == 1,
            opt_view(found) == last_value(all.take(i as int)),
        decreases rows@.len() - i,
    {
        assert(all.take(i + 1).drop_last() == all.take(i as int));
        assert(all.take(i + 1).last() == all[i as int]);
        let row = &rows[i];
        assert(all[i as int] == row@.map_values(|o: Option<String>| opt_view(o)));
        if row[0].is_some() {
            found = row[0].clone();
        }
        i += 1;
    }
    assert(all.take(rows@.len() as int) == all);
    found
}

/// The view of the icon references of a page.
pub open spec fn page_refs_view(r: PageRefs) -> (Seq<(Seq<char>, Option<Seq<char>>)>, Option<Seq<char>>, Option<Seq<char>>) {
    (
        refs_view(r.links@),
        match r.logo { Some(l) => Some(l.href@), None => None },
        opt_view(r.manifest),
    )
}

/// The icon references of a page, from the three scans of its HTML.
pub open spec fn page_refs_spec(html: Seq<u8>) -> Option<(Seq<(Seq<char>, Option<Seq<char>>)>, Option<Seq<char>>, Option<Seq<char>>)> {
    match (
        html_attrs_of(html, icon_link_selector(), seq!["href"@, "sizes"@]),
        html_attrs_of(html, logo_selector(), seq!["src"@]),
        html_attrs_of(html, manifest_selector(), seq!["href"@]),
    ) {
        (Some(links), Some(imgs), Some(manifests)) => Some((links_spec(links), first_value(imgs), last_value(manifests))),
        _ => None,
    }
}

/// Finds the icon references of a page: its icon links in document order
/// with their sizes, the first header image with a `src` as its logo (with
/// no sizes), and the `href` of its last manifest link; `None` when the HTML
/// cannot be read.
pub fn page_refs(html: &[u8]) -> (res: Option<PageRefs>)
    ensures
        match page_refs_spec(html@) {
            Some(v) => res matches Some(r) && page_refs_view(r) == v && (r.logo matches Some(l) ==> l.sizes is None),
            None => res is None,
        },
{
    let link_attrs = vec!["href".to_string(), "sizes".to_string()];
    let src_attrs = vec!["src".to_string()];
    let href_attrs = vec!["href".to_string()];
    assert(link_attrs@.map_values(|a: String| a@) =~= seq!["href"@, "sizes"@]);
    assert(src_attrs@.map_values(|a: String| a@) =~= seq!["src"@]);
    assert(href_attrs@.map_values(|a: String| a@) =~= seq!["href"@]);
    let link_rows = html_attrs(
        html,
        "link[rel='icon'],link[rel='shortcut icon'],link[rel='apple-touch-icon'],link[rel='apple-touch-icon-precomposed']",
        &link_attrs,
    );
    let img_rows = html_attrs(html, "header img", &src_attrs);
    let manifest_rows = html_attrs(html, "link[rel='manifest']", &href_attrs);
    match (link_rows, img_rows, manifest_rows) {
        (Some(l), Some(g), Some(m)) => {
            let links = links_of(&l);
            let logo = match first_of(&g) {
                Some(src) => Some(IconRef { href: src, sizes: None }),
                None => None,
            };
            let manifest = last_of(&m);
            Some(PageRefs { links, logo, manifest })
        },
        _ => None,
    }
}

} // verus!
