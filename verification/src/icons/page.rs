use crate::icons::info::{IconInfo, InfoError};
use crate::web::{url_join, url_joined};
use vstd::prelude::*;

verus! {

/// An icon that a page points to, with the sizes the page gives for it.
#[derive(Debug)]
pub struct Candidate {
    pub url: String,
    pub sizes: Option<String>,
}

/// A reference to an icon as a page or manifest writes it.
#[derive(Debug)]
pub struct IconRef {
    pub href: String,
    pub sizes: Option<String>,
}

/// An icon of a page: its address and what is known of it.
#[derive(Debug)]
pub struct Icon {
    pub url: String,
    pub info: IconInfo,
}

/// The references resolved against `base`, in order; `None` when one of
/// them does not resolve.
pub open spec fn resolved_spec(base: Seq<char>, refs: Seq<IconRef>) -> Option<Seq<(Seq<char>, Option<String>)>>
    decreases refs.len(),
{
    if refs.len() == 0 {
        Some(Seq::empty())
    } else {
        match (resolved_spec(base, refs.drop_last()), url_joined(base, refs.last().href@)) {
            (Some(done), Some(u)) => Some(done.push((u, refs.last().sizes))),
            _ => None,
        }
    }
}

/// The address and sizes of each candidate.
pub open spec fn candidates_view(c: Seq<Candidate>) -> Seq<(Seq<char>, Option<String>)> {
    c.map_values(|x: Candidate| (x.url@, x.sizes))
}

/// Resolves references against `base`; `None` when one does not resolve.
pub fn resolve_refs(base: &str, refs: Vec<IconRef>) -> (res: Option<Vec<Candidate>>)
    ensures
        match resolved_spec(base@, refs@) {
            Some(v) => res matches Some(c) && candidates_view(c@) == v,
            None => res is None,
        },
{
    let ghost input = refs@;
    let total = refs.len();
    let mut rest = refs;
    let mut out: Vec<Candidate> = Vec::new();
    let mut n: usize = 0;
    while rest.len() > 0
        invariant
            n + rest@.len() == input.len(),
            total == input.len(),
            rest@ == input.skip(n as int),
            resolved_spec(base@, input.take(n as int)) == Some(candidates_view(out@)),
            input == refs@,
        decreases rest@.len(),
    {
        let r = rest.remove(0);
        assert(r == input[n as int]);
        assert(input.take(n + 1).drop_last() == input.take(n as int));
        assert(input.take(n + 1).last() == r);
        match url_join(base, r.href.as_str()) {
            None => {
                assert(resolved_spec(base@, input.take(n + 1)) is None);
                proof {
                    lemma_resolved_none_extends(base@, input, n as int + 1);
                    assert(resolved_spec(base@, input) is None);
                }
                return None;
            },
            Some(u) => {
                let ghost before = out@;
                out.push(Candidate { url: u, sizes: r.sizes });
                assert(candidates_view(out@) =~= candidates_view(before).push((u@, r.sizes)));
            },
        }
        n += 1;
        assert(rest@ =~= input.skip(n as int));
    }
    assert(input.take(n as int) == input);
    Some(out)
}

/// Once a prefix fails to resolve, the whole list fails.
proof fn lemma_resolved_none_extends(base: Seq<char>, refs: Seq<IconRef>, k: int)
    requires
        0 <= k <= refs.len(),
        resolved_spec(base, refs.take(k)) is None,
    ensures
        resolved_spec(base, refs) is None,
    decreases refs.len() - k,
{
    if k < refs.len() {
        assert(refs.take(k + 1).drop_last() == refs.take(k));
        lemma_resolved_none_extends(base, refs, k + 1);
    } else {
        assert(refs.take(k) == refs);
    }
}

/// The page's default icon, `/favicon.ico`.
pub open spec fn favicon_path() -> Seq<char> {
    "/favicon.ico"@
}

/// The icons of a page, in order: its icon links, or `/favicon.ico` when it
/// has none; then its header logo; then the icons of its manifest. `None`
/// when the default icon's address does not resolve.
pub open spec fn candidates_spec(
    base: Seq<char>,
    links: Seq<(Seq<char>, Option<String>)>,
    logo: Option<(Seq<char>, Option<String>)>,
    manifest: Option<Seq<(Seq<char>, Option<String>)>>,
) -> Option<Seq<(Seq<char>, Option<String>)>> {
    let tail = (match logo { Some(l) => seq![l], None => Seq::empty() })
        + (match manifest { Some(m) => m, None => Seq::empty() });
    if links.len() > 0 {
        Some(links + tail)
    } else {
        match url_joined(base, favicon_path()) {
            Some(f) => Some(seq![(f, None::<String>)] + tail),
            None => None,
        }
    }
}

/// The icons to look at for a page whose address is `base`.
pub fn icon_candidates(
    base: &str,
    links: Vec<Candidate>,
    logo: Option<Candidate>,
    manifest: Option<Vec<Candidate>>,
) -> (res: Option<Vec<Candidate>>)
    ensures
        match candidates_spec(
            base@,
            candidates_view(links@),
            match logo { Some(l) => Some((l.url@, l.sizes)), None => None },
            match manifest { Some(m) => Some(candidates_view(m@)), None => None },
        ) {
            Some(v) => res matches Some(c) && candidates_view(c@) == v,
            None => res is None,
        },
{
    let mut icons = links;
    let ghost first = icons@;
    if icons.len() == 0 {
        match url_join(base, "/favicon.ico") {
            None => return None,
            Some(f) => {
                icons.push(Candidate { url: f, sizes: None });
            },
        }
    }
    let ghost after_links = icons@;
    match logo {
        Some(l) => icons.push(l),
        None => {},
    }
    let ghost after_logo = icons@;
    match manifest {
        Some(mut m) => icons.append(&mut m),
        None => {},
    }
    assert(candidates_view(icons@) =~= candidates_spec(
        base@,
        candidates_view(first),
        match logo { Some(l) => Some((l.url@, l.sizes)), None => None },
        match manifest { Some(m) => Some(candidates_view(m@)), None => None },
    ).unwrap());
    Some(icons)
}

/// A page's header logo comes right after its icon links (or, with none,
/// after the default icon) and before the manifest's icons, whether or not
/// the page has icon links; the icon links and the manifest's icons come
/// unchanged and in order; and leaving the logo out gives the same list with
/// just that entry missing. A page with icon links always has candidates.
pub proof fn lemma_logo_follows_links(
    base: Seq<char>,
    links: Seq<(Seq<char>, Option<String>)>,
    logo: (Seq<char>, Option<String>),
    manifest: Option<Seq<(Seq<char>, Option<String>)>>,
)
    ensures
        links.len() > 0 ==> candidates_spec(base, links, Some(logo), manifest) is Some,
        candidates_spec(base, links, Some(logo), manifest) is Some
            <==> candidates_spec(base, links, None, manifest) is Some,
        ({
            let h = if links.len() > 0 { links.len() as int } else { 1 };
            let m = match manifest { Some(m) => m, None => Seq::empty() };
            candidates_spec(base, links, Some(logo), manifest) matches Some(v) ==> {
                &&& v.len() == h + 1 + m.len()
                &&& v[h] == logo
                &&& links.len() > 0 ==> v.take(h) == links
                &&& v.skip(h + 1) == m
                &&& candidates_spec(base, links, None, manifest) == Some(v.remove(h))
            }
        }),
{
    let h = if links.len() > 0 { links.len() as int } else { 1 };
    let m = match manifest { Some(m) => m, None => Seq::<(Seq<char>, Option<String>)>::empty() };
    match candidates_spec(base, links, Some(logo), manifest) {
        Some(v) => {
            let head = v.take(h);
            assert(v =~= head + seq![logo] + m);
            assert(v.take(h) =~= head);
            assert(v.skip(h + 1) =~= m);
            assert(v.remove(h) =~= head + m);
            assert(candidates_spec(base, links, None, manifest) == Some(head + m)) by {
                assert(seq![logo] + m =~= (match Some(logo) { Some(l) => seq![l], None => Seq::empty() }) + m);
                assert(Seq::<(Seq<char>, Option<String>)>::empty() + m =~= m);
                if links.len() > 0 {
                    assert(links + (seq![logo] + m) =~= links + seq![logo] + m);
                    assert(head =~= links);
                    assert(links + (Seq::<(Seq<char>, Option<String>)>::empty() + m) =~= links + m);
                } else {
                    let f = url_joined(base, favicon_path()).unwrap();
                    assert(seq![(f, None::<String>)] + (seq![logo] + m) =~= seq![(f, None::<String>)] + seq![logo] + m);
                    assert(head =~= seq![(f, None::<String>)]);
                    assert(seq![(f, None::<String>)] + (Seq::<(Seq<char>, Option<String>)>::empty() + m) =~= seq![(f, None::<String>)] + m);
                }
            }
        },
        None => {},
    }
}

/// The icons whose information was found, each with its address; those whose
/// information could not be found are left out.
pub open spec fn found_icons_spec(urls: Seq<String>, infos: Seq<Result<IconInfo, InfoError>>) -> Seq<(String, IconInfo)>
    decreases infos.len(),
{
    if infos.len() == 0 {
        Seq::empty()
    } else {
        let rest = found_icons_spec(urls, infos.drop_last());
        match infos.last() {
            Ok(info) => rest.push((urls[infos.len() - 1], info)),
            Err(_) => rest,
        }
    }
}

/// Pairs each address with its information, leaving out those whose
/// information could not be found.
pub fn collect_icons(urls: Vec<String>, infos: Vec<Result<IconInfo, InfoError>>) -> (res: Vec<Icon>)
    requires
        urls@.len() == infos@.len(),
    ensures
        res@.map_values(|i: Icon| (i.url, i.info)) == found_icons_spec(urls@, infos@),
{
    let ghost all_urls = urls@;
    let ghost input = infos@;
    let total = infos.len();
    let mut urls = urls;
    let mut rest = infos;
    let mut out: Vec<Icon> = Vec::new();
    let mut n: usize = 0;
    while rest.len() > 0
        invariant
            n + rest@.len() == input.len(),
            total == input.len(),
            all_urls.len() == input.len(),
            rest@ == input.skip(n as int),
            urls@ == all_urls.skip(n as int),
            out@.map_values(|i: Icon| (i.url, i.info)) == found_icons_spec(all_urls, input.take(n as int)),
        decreases rest@.len(),
    {
        let info = rest.remove(0);
        let url = urls.remove(0);
        assert(info == input[n as int]);
        assert(url == all_urls[n as int]);
        assert(input.take(n + 1).drop_last() == input.take(n as int));
        assert(input.take(n + 1).last() == info);
        let ghost before = out@;
        match info {
            Ok(i) => {
                out.push(Icon { url, info: i });
                assert(out@.map_values(|i: Icon| (i.url, i.info)) =~= before.map_values(|i: Icon| (i.url, i.info)).push((url, i)));
            },
            Err(_) => {},
        }
        n += 1;
        assert(rest@ =~= input.skip(n as int));
        assert(urls@ =~= all_urls.skip(n as int));
    }
    assert(input.take(n as int) == input);
    out
}

/// The icon addresses of a page as the plain lookup lists them: its icon
/// links, then the icons of its manifest, then its header logo.
pub fn icon_urls(links: Vec<String>, manifest: Option<Vec<String>>, logo: Option<String>) -> (res: Vec<String>)
    ensures
        res@ == links@ + (match manifest { Some(m) => m@, None => Seq::<String>::empty() })
            + (match logo { Some(l) => seq![l], None => Seq::<String>::empty() }),
{
    let mut urls = links;
    match manifest {
        Some(mut m) => urls.append(&mut m),
        None => {},
    }
    match logo {
        Some(l) => urls.push(l),
        None => {},
    }
    urls
}

} // verus!
