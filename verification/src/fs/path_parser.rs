use crate::text::{char_views, chars_of, join_chars, join_spec, split_chars, string_of, split_spec, lemma_split_join, lemma_split_concat, lemma_split_nonempty};
use vstd::prelude::*;

verus! {

/// Where a path in the mounted `GitHub` folder points.
#[derive(Debug)]
pub enum PathKind {
    Root,
    User(String),
    Repo { user: String, repo: String },
    Content { user: String, repo: String, path: String },
}

/// A path's place, as text.
pub enum PathKindView {
    Root,
    User(Seq<char>),
    Repo(Seq<char>, Seq<char>),
    Content(Seq<char>, Seq<char>, Seq<char>),
}

impl View for PathKind {
    type V = PathKindView;

    open spec fn view(&self) -> PathKindView {
        match self {
            PathKind::Root => PathKindView::Root,
            PathKind::User(u) => PathKindView::User(u@),
            PathKind::Repo { user, repo } => PathKindView::Repo(user@, repo@),
            PathKind::Content { user, repo, path } => PathKindView::Content(user@, repo@, path@),
        }
    }
}

/// The text `/`.
pub open spec fn slash() -> Seq<char> {
    seq!['/']
}

/// The place of a path from its components (the first being the root): the
/// second is the user, the third the repository, the rest, joined with `/`,
/// the path inside the repository.
pub open spec fn path_kind_spec(c: Seq<Seq<char>>) -> PathKindView {
    if c.len() == 1 {
        PathKindView::Root
    } else if c.len() == 2 {
        PathKindView::User(c[1])
    } else if c.len() == 3 {
        PathKindView::Repo(c[1], c[2])
    } else {
        PathKindView::Content(c[1], c[2], join_spec(c.skip(3), slash()))
    }
}

/// The components of a path, as `std::path::Path::iter` gives them on Unix:
/// the root `/` first for an absolute path, a leading `.` for a path that
/// starts with one, then the parts between `/` separators, with empty parts
/// (from repeated and trailing separators) and `.` parts left out.
pub open spec fn path_components_of(path: Seq<char>) -> Seq<Seq<char>> {
    let parts = split_spec(path, '/');
    let root = path.len() > 0 && path[0] == '/';
    let lead = !root && parts.len() > 0 && parts[0] == seq!['.'];
    (if root { seq![seq!['/']] } else { Seq::<Seq<char>>::empty() })
        + (if lead { seq![seq!['.']] } else { Seq::<Seq<char>>::empty() })
        + parts.filter(|c: Seq<char>| c.len() > 0 && c != seq!['.'])
}

/// Splits a path into components, as `std::path::Path::iter` does on Unix.
pub fn path_components(path: &str) -> (res: Vec<String>)
    ensures
        res@.map_values(|s: String| s@) == path_components_of(path@),
{
    let cs = chars_of(path);
    let parts = split_chars(cs.as_slice(), '/');
    let ghost sp = split_spec(path@, '/');
    let ghost f = kept_part();
    proof {
        lemma_split_nonempty(path@, '/');
    }
    assert(char_views(parts@) == sp);
    let root = cs.len() > 0 && cs[0] == '/';
    let first = &parts[0];
    assert(first@ == sp[0]);
    let lead = !root && first.len() == 1 && first[0] == '.';
    assert(lead == (!root && sp.len() > 0 && sp[0] == seq!['.'])) by {
        if first@.len() == 1 && first@[0] == '.' {
            assert(first@ =~= seq!['.']);
        }
    }
    let mut out: Vec<String> = Vec::new();
    let slash_chars = ['/'];
    let dot_chars = ['.'];
    if root {
        let r = string_of(&slash_chars);
        assert(r@ =~= seq!['/']);
        out.push(r);
    }
    if lead {
        let d = string_of(&dot_chars);
        assert(d@ =~= seq!['.']);
        out.push(d);
    }
    let ghost head = out@.map_values(|s: String| s@);
    assert(head =~= (if root { seq![seq!['/']] } else { Seq::<Seq<char>>::empty() })
        + (if lead { seq![seq!['.']] } else { Seq::<Seq<char>>::empty() }));
    let mut i: usize = 0;
    while i < parts.len()
        invariant
            i <= parts@.len(),
            char_views(parts@) == sp,
            f == kept_part(),
            out@.map_values(|s: String| s@) == head + sp.take(i as int).filter(f),
        decreases parts@.len() - i,
    {
        let part = &parts[i];
        assert(part@ == sp[i as int]);
        assert(sp.take(i + 1) == sp.take(i as int).push(sp[i as int]));
        proof {
            sp.take(i as int).lemma_filter_push(sp[i as int], f);
        }
        let keep = part.len() > 0 && !(part.len() == 1 && part[0] == '.');
        assert(keep == f(part@)) by {
            assert(f(part@) == (part@.len() > 0 && part@ != seq!['.']));
            if part@.len() == 1 && part@[0] == '.' {
                assert(part@ =~= seq!['.']);
            }
            if part@ == seq!['.'] {
                assert(part@.len() == 1 && part@[0] == '.');
            }
        }
        if keep {
            let ghost before = out@;
            out.push(string_of(part.as_slice()));
            assert(out@.map_values(|s: String| s@) =~= before.map_values(|s: String| s@).push(part@));
        }
        i += 1;
    }
    assert(sp.take(parts@.len() as int) == sp);
    assert(sp.filter(f) == sp.filter(|c: Seq<char>| c.len() > 0 && c != seq!['.']));
    out
}

/// The place of a path given by its components, of which there is at least one.
pub fn parse_components(components: &Vec<String>) -> (res: PathKind)
    requires
        components@.len() >= 1,
    ensures
        res@ == path_kind_spec(components@.map_values(|s: String| s@)),
{
    let ghost c = components@.map_values(|s: String| s@);
    let n = components.len();
    if n == 1 {
        PathKind::Root
    } else if n == 2 {
        PathKind::User(components[1].clone())
    } else if n == 3 {
        PathKind::Repo { user: components[1].clone(), repo: components[2].clone() }
    } else {
        let mut rest: Vec<Vec<char>> = Vec::new();
        let mut i: usize = 3;
        while i < n
            invariant
                n == components@.len(),
                3 <= i <= n,
                c == components@.map_values(|s: String| s@),
                char_views(rest@) == c.skip(3).take(i - 3),
            decreases n - i,
        {
            let piece = chars_of(components[i].as_str());
            let ghost before = rest@;
            rest.push(piece);
            assert(char_views(rest@) =~= char_views(before).push(piece@));
            i += 1;
            assert(c.skip(3).take(i - 3) =~= c.skip(3).take(i - 4).push(c[i - 1]));
        }
        assert(c.skip(3).take(n - 3) == c.skip(3));
        let sep = vec!['/'];
        assert(sep@ == slash());
        let joined = join_chars(rest.as_slice(), sep.as_slice());
        PathKind::Content {
            user: components[1].clone(),
            repo: components[2].clone(),
            path: string_of(joined.as_slice()),
        }
    }
}

/// The place that `parse_path` gives a path: `None` for a path with no
/// components, else the place of its components.
pub open spec fn parsed_path(path: Seq<char>) -> Option<PathKindView> {
    let c = path_components_of(path);
    if c.len() == 0 {
        None
    } else {
        Some(path_kind_spec(c))
    }
}

/// The place of a path in the mounted folder; `None` for a path with no
/// components (the empty path).
pub fn parse_path(path: &str) -> (res: Option<PathKind>)
    ensures
        path_components_of(path@).len() == 0 <==> res is None,
        res matches Some(kind) ==> kind@ == path_kind_spec(path_components_of(path@)),
        parsed_path(path@) == (match res {
            Some(kind) => Some(kind@),
            None => None::<PathKindView>,
        }),
{
    let components = path_components(path);
    if components.len() == 0 {
        return None;
    }
    Some(parse_components(&components))
}


/// The path inside a repository that a path names splits at `/` back into
/// the path's components after the repository, when no component holds a `/`.
pub proof fn lemma_content_path_splits(c: Seq<Seq<char>>)
    requires
        c.len() >= 4,
        forall|i: int, j: int| 0 <= i < c.len() && 0 <= j < c[i].len() ==> #[trigger] c[i][j] != '/',
    ensures
        path_kind_spec(c) matches PathKindView::Content(u, r, p) && u == c[1] && r == c[2]
            && split_spec(p, '/') == c.skip(3),
{
    let rest = c.skip(3);
    assert forall|i: int, j: int| 0 <= i < rest.len() && 0 <= j < rest[i].len() implies #[trigger] rest[i][j] != '/' by {
        assert(rest[i] == c[i + 3]);
    }
    assert(slash() == seq!['/']);
    lemma_split_join(rest, '/');
}

/// The parts of a path that count as components.
pub open spec fn kept_part() -> spec_fn(Seq<char>) -> bool {
    |c: Seq<char>| c.len() > 0 && c != seq!['.']
}

proof fn lemma_components_from_parts(p: Seq<char>, q: Seq<char>, extra: Seq<Seq<char>>, i: int)
    requires
        p.len() > 0,
        q.len() > 0,
        p[0] == q[0],
        split_spec(p, '/')[0] == split_spec(q, '/')[0],
        extra.filter(kept_part()) == Seq::<Seq<char>>::empty(),
        0 < i <= split_spec(p, '/').len(),
        split_spec(q, '/') == split_spec(p, '/').take(i) + extra + split_spec(p, '/').skip(i),
    ensures
        path_components_of(p) == path_components_of(q),
{
    let sp = split_spec(p, '/');
    let sq = split_spec(q, '/');
    let f = kept_part();
    Seq::filter_distributes_over_add(sp.take(i) + extra, sp.skip(i), f);
    Seq::filter_distributes_over_add(sp.take(i), extra, f);
    Seq::filter_distributes_over_add(sp.take(i), sp.skip(i), f);
    assert(sp.take(i) + sp.skip(i) == sp);
    assert(sp.take(i).filter(f) + Seq::<Seq<char>>::empty() == sp.take(i).filter(f));
    assert(sp.filter(|c: Seq<char>| c.len() > 0 && c != seq!['.']) == sp.filter(f));
    assert(sq.filter(|c: Seq<char>| c.len() > 0 && c != seq!['.']) == sq.filter(f));
}

/// A path and the same path with a `/` doubled, or with a `.` component put
/// after a `/`, have the same components, and so name the same place:
/// `parse_path` reads `a/b`, `a//b` and `a/./b` alike.
pub proof fn lemma_components_ignore_empty_and_dot(a: Seq<char>, b: Seq<char>)
    ensures
        path_components_of(a.push('/') + b) == path_components_of(a.push('/').push('/') + b),
        path_components_of(a.push('/') + b) == path_components_of(a.push('/').push('.').push('/') + b),
{
    let p = a.push('/') + b;
    let q1 = a.push('/').push('/') + b;
    let q2 = a.push('/').push('.').push('/') + b;
    lemma_split_concat(a, '/', b);
    lemma_split_concat(a.push('/'), '/', b);
    lemma_split_concat(a.push('/').push('.'), '/', b);
    lemma_split_concat(a, '/', seq!['.']);
    lemma_split_concat(a, '/', Seq::<char>::empty());
    assert(a.push('/') + Seq::<char>::empty() == a.push('/'));
    assert(a.push('/') + seq!['.'] == a.push('/').push('.'));
    lemma_split_nonempty(a, '/');
    lemma_split_nonempty(b, '/');
    let sa = split_spec(a, '/');
    let sb = split_spec(b, '/');
    assert(split_spec(Seq::<char>::empty(), '/') == seq![Seq::<char>::empty()]);
    lemma_split_no_dot_piece();
    let e = seq![Seq::<char>::empty()];
    let d = seq![seq!['.']];
    reveal_with_fuel(Seq::filter, 2);
    assert(e.filter(kept_part()) =~= Seq::<Seq<char>>::empty()) by {
        assert(e.drop_last() =~= Seq::<Seq<char>>::empty());
    }
    assert(d.filter(kept_part()) =~= Seq::<Seq<char>>::empty()) by {
        assert(d.drop_last() =~= Seq::<Seq<char>>::empty());
    }
    let sp = split_spec(p, '/');
    assert(sp == sa + sb);
    assert(split_spec(q1, '/') == sa + e + sb);
    assert(split_spec(q2, '/') == sa + d + sb);
    assert(sp.take(sa.len() as int) == sa);
    assert(sp.skip(sa.len() as int) == sb);
    assert(p[0] == q1[0] && p[0] == q2[0]) by {
        if a.len() > 0 {
            assert(p[0] == a[0]);
            assert(q1[0] == a[0]);
            assert(q2[0] == a[0]);
        }
    }
    lemma_components_from_parts(p, q1, e, sa.len() as int);
    lemma_components_from_parts(p, q2, d, sa.len() as int);
}

/// `parse_path` gives the same place for `a/b`, `a//b` and `a/./b`: a
/// doubled separator or a `.` component changes nothing.
pub proof fn lemma_parse_path_ignores_empty_and_dot_parts(a: Seq<char>, b: Seq<char>)
    ensures
        parsed_path(a.push('/') + b) == parsed_path(a.push('/').push('/') + b),
        parsed_path(a.push('/') + b) == parsed_path(a.push('/').push('.').push('/') + b),
{
    lemma_components_ignore_empty_and_dot(a, b);
}

/// `parse_path` gives the same place for a non-empty path and for the same
/// path with a `/` at its end.
pub proof fn lemma_parse_path_ignores_trailing_slash(p: Seq<char>)
    requires
        p.len() > 0,
    ensures
        parsed_path(p.push('/')) == parsed_path(p),
{
    lemma_components_ignore_trailing_slash(p);
}

proof fn lemma_split_no_dot_piece()
    ensures
        split_spec(seq!['.'], '/') == seq![seq!['.']],
{
    assert(seq!['.'].drop_last() == Seq::<char>::empty());
    assert(split_spec(Seq::<char>::empty(), '/') == seq![Seq::<char>::empty()]);
    assert(Seq::<char>::empty().push('.') == seq!['.']);
}

/// A path and the same path with a `/` added at its end have the same
/// components: `parse_path` reads `a/b/` as `a/b`.
pub proof fn lemma_components_ignore_trailing_slash(p: Seq<char>)
    requires
        p.len() > 0,
    ensures
        path_components_of(p.push('/')) == path_components_of(p),
{
    lemma_split_concat(p, '/', Seq::<char>::empty());
    assert(p.push('/') + Seq::<char>::empty() == p.push('/'));
    lemma_split_nonempty(p, '/');
    let sp = split_spec(p, '/');
    let e = seq![Seq::<char>::empty()];
    assert(split_spec(Seq::<char>::empty(), '/') == e);
    assert(split_spec(p.push('/'), '/') == sp + e);
    reveal_with_fuel(Seq::filter, 2);
    assert(e.filter(kept_part()) =~= Seq::<Seq<char>>::empty()) by {
        assert(e.drop_last() =~= Seq::<Seq<char>>::empty());
    }
    assert(sp + e == sp.take(sp.len() as int) + e + sp.skip(sp.len() as int));
    lemma_components_from_parts(p, p.push('/'), e, sp.len() as int);
}

} // verus!
