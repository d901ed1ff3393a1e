use crate::fs::path_parser::{path_components, path_components_of, slash};
use crate::matching::{regex_is_match, regex_matches};
use crate::text::{char_views, chars_of, join_chars, join_spec, string_of};
use vstd::prelude::*;

verus! {

/// Whose icon an `Icon\r` file stands for.
#[derive(Debug)]
pub enum Icon {
    User(String),
    Repo(String, String),
}

/// What a path in the mounted folder names.
#[derive(Debug)]
pub enum Kind {
    Root,
    Icon(Icon),
    User(String),
    DefaultTree(String, String, String),
    CustomTree(String, String, String),
}

/// Why a path names nothing.
#[derive(Debug, Clone, Copy, PartialEq, Eq, Structural)]
pub enum PathError {
    /// The second component is no GitHub user name.
    InvalidUsername,
    /// The repository name check failed.
    InvalidRepoName,
    /// The repository name is one that the mounted folder keeps for itself.
    ReservedName,
}

/// What a path names, as text.
pub enum KindView {
    Root,
    UserIcon(Seq<char>),
    RepoIcon(Seq<char>, Seq<char>),
    User(Seq<char>),
    DefaultTree(Seq<char>, Seq<char>, Seq<char>),
    CustomTree(Seq<char>, Seq<char>, Seq<char>),
}

impl View for Kind {
    type V = KindView;

    open spec fn view(&self) -> KindView {
        match self {
            Kind::Root => KindView::Root,
            Kind::Icon(Icon::User(u)) => KindView::UserIcon(u@),
            Kind::Icon(Icon::Repo(u, r)) => KindView::RepoIcon(u@, r@),
            Kind::User(u) => KindView::User(u@),
            Kind::DefaultTree(u, r, p) => KindView::DefaultTree(u@, r@, p@),
            Kind::CustomTree(u, r, p) => KindView::CustomTree(u@, r@, p@),
        }
    }
}

/// The view of a result of `parse`.
pub open spec fn kind_result_view(res: Result<Kind, PathError>) -> Result<KindView, PathError> {
    match res {
        Ok(k) => Ok(k@),
        Err(e) => Err(e),
    }
}

/// The pattern that GitHub user names match.
pub open spec fn username_pattern() -> Seq<char> {
    seq!['^', '(', '[', 'a', '-', 'z', '\\', 'd', ']', '+', '-', ')', '*', '[', 'a', '-', 'z', '\\', 'd', ']', '+', '$']
}

/// The pattern that repository names match.
pub open spec fn repo_pattern() -> Seq<char> {
    seq!['^', '(', '[', 'A', '-', 'Z', 'a', '-', 'z', '0', '-', '9', '_', '.', '-', ']', ')', '{', '0', ',', '1', '0', '0', '}', '$']
}

/// The name of the file that holds a folder's icon, `Icon\r`.
pub open spec fn icon_file_name() -> Seq<char> {
    seq!['I', 'c', 'o', 'n', '\r']
}

/// The component that selects a custom tree, `^tree`.
pub open spec fn custom_tree_marker() -> Seq<char> {
    seq!['^', 't', 'r', 'e', 'e']
}

/// What the components of a path name. The user name must match
/// `username_pattern`; the repository check tests the user name too.
/// `Icon\r` directly in a user's or repository's folder is that folder's
/// icon. Inside a repository, a path whose first component is `^tree` names a
/// custom tree, any other a path in the default tree; both keep all the
/// components after the repository, joined with `/`.
pub open spec fn kind_spec(c: Seq<Seq<char>>) -> Result<KindView, PathError> {
    let is_icon = c.last() == icon_file_name();
    if c.len() == 1 {
        Ok(KindView::Root)
    } else if !regex_matches(username_pattern(), c[1]) {
        Err(PathError::InvalidUsername)
    } else if c.len() == 2 {
        Ok(KindView::User(c[1]))
    } else if !regex_matches(repo_pattern(), c[1]) {
        Err(PathError::InvalidRepoName)
    } else if is_icon && c.len() == 3 {
        Ok(KindView::UserIcon(c[1]))
    } else if is_icon && c.len() == 4 {
        Ok(KindView::RepoIcon(c[1], c[2]))
    } else {
        let rest = c.skip(3);
        if rest.len() > 0 && rest[0] == custom_tree_marker() {
            Ok(KindView::CustomTree(c[1], c[2], join_spec(rest, slash())))
        } else {
            Ok(KindView::DefaultTree(c[1], c[2], join_spec(rest, slash())))
        }
    }
}

/// Whether a string holds exactly the given characters.
pub(crate) fn str_is(s: &str, expected: &[char]) -> (res: bool)
    ensures
        res == (s@ == expected@),
{
    let cs = chars_of(s);
    if cs.len() != expected.len() {
        return false;
    }
    let mut i: usize = 0;
    while i < expected.len()
        invariant
            cs@ == s@,
            cs@.len() == expected@.len(),
            i <= expected@.len(),
            forall|k: int| 0 <= k < i ==> cs@[k] == expected@[k],
        decreases expected@.len() - i,
    {
        if cs[i] != expected[i] {
            assert(s@[i as int] != expected@[i as int]);
            return false;
        }
        i += 1;
    }
    assert(cs@ =~= expected@);
    true
}

/// Joins the components from index 3 on with `/`.
pub(crate) fn join_tail(components: &Vec<String>) -> (res: String)
    requires
        components@.len() >= 3,
    ensures
        res@ == join_spec(components@.map_values(|s: String| s@).skip(3), slash()),
{
    let ghost c = components@.map_values(|s: String| s@);
    let n = components.len();
    let mut rest: Vec<Vec<char>> = Vec::new();
    let mut i: usize = 3;
    while i < n
        invariant
            n == components@.len(),
            3 <= i <= n,
            c == components@.map_values(|s: String| s@),
            char_views(rest@) == c.skip(3).take(i - 3),
        decreases n - i,
    {
        let piece = chars_of(components[i].as_str());
        let ghost before = rest@;
        rest.push(piece);
        assert(char_views(rest@) =~= char_views(before).push(piece@));
        i += 1;
        assert(c.skip(3).take(i - 3) =~= c.skip(3).take(i - 4).push(c[i - 1]));
    }
    assert(c.skip(3).take(n - 3) == c.skip(3));
    let sep = vec!['/'];
    assert(sep@ == slash());
    let joined = join_chars(rest.as_slice(), sep.as_slice());
    string_of(joined.as_slice())
}

/// What the components of a path name; there is at least one component.
pub fn parse_components(components: &Vec<String>) -> (res: Result<Kind, PathError>)
    requires
        components@.len() >= 1,
    ensures
        kind_result_view(res) == kind_spec(components@.map_values(|s: String| s@)),
{
    let ghost c = components@.map_values(|s: String| s@);
    let n = components.len();
    let icon_name = ['I', 'c', 'o', 'n', '\r'];
    assert(icon_name@ == icon_file_name());
    let is_icon = str_is(components[n - 1].as_str(), &icon_name);
    assert(c.last() == components@[n - 1]@);

    if n == 1 {
        return Ok(Kind::Root);
    }

    let owner = components[1].clone();
    let user_re = "^([a-z\\d]+-)*[a-z\\d]+$";
    proof {
        reveal_strlit("^([a-z\\d]+-)*[a-z\\d]+$");
    }
    assert(user_re@ =~= username_pattern());
    if !regex_is_match(user_re, owner.as_str()) {
        return Err(PathError::InvalidUsername);
    }

    if n == 2 {
        return Ok(Kind::User(owner));
    }

    let repo = components[2].clone();
    let repo_re = "^([A-Za-z0-9_.-]){0,100}$";
    proof {
        reveal_strlit("^([A-Za-z0-9_.-]){0,100}$");
    }
    assert(repo_re@ =~= repo_pattern());
    if !regex_is_match(repo_re, owner.as_str()) {
        return Err(PathError::InvalidRepoName);
    }

    if is_icon {
        if n == 3 {
            return Ok(Kind::Icon(Icon::User(owner)));
        }
        if n == 4 {
            return Ok(Kind::Icon(Icon::Repo(owner, repo)));
        }
    }

    let marker = ['^', 't', 'r', 'e', 'e'];
    assert(marker@ == custom_tree_marker());
    let custom = n > 3 && str_is(components[3].as_str(), &marker);
    assert(n > 3 ==> c.skip(3)[0] == components@[3]@);
    let path = join_tail(components);
    if custom {
        Ok(Kind::CustomTree(owner, repo, path))
    } else {
        Ok(Kind::DefaultTree(owner, repo, path))
    }
}

/// What a path in the mounted folder names; `None` for a path with no
/// components (the empty path).
pub fn parse(path: &str) -> (res: Option<Result<Kind, PathError>>)
    ensures
        path_components_of(path@).len() == 0 <==> res is None,
        res matches Some(r) ==> kind_result_view(r) == kind_spec(path_components_of(path@)),
{
    let components = path_components(path);
    if components.len() == 0 {
        return None;
    }
    Some(parse_components(&components))
}

} // verus!
