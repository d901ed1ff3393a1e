pub use crate::fs::path::{Icon, Kind, KindView, PathError};
use crate::fs::path::{
    custom_tree_marker, icon_file_name, join_tail, kind_result_view, repo_pattern, str_is,
    username_pattern,
};
use crate::fs::path_parser::{path_components, path_components_of, slash};
use crate::matching::{regex_is_match, regex_matches};
use crate::text::join_spec;
use vstd::prelude::*;

verus! {

/// The repository names that the mounted folder keeps for itself: `.git`
/// and `node_modules`.
pub open spec fn is_reserved_name(name: Seq<char>) -> bool {
    name == seq!['.', 'g', 'i', 't'] || name == seq!['n', 'o', 'd', 'e', '_', 'm', 'o', 'd', 'u', 'l', 'e', 's']
}

/// What the components of a path name, as `crate::fs::path::kind_spec`
/// says, except that a reserved repository name names nothing.
pub open spec fn mount_kind_spec(c: Seq<Seq<char>>) -> Result<KindView, PathError> {
    let is_icon = c.last() == icon_file_name();
    if c.len() == 1 {
        Ok(KindView::Root)
    } else if !regex_matches(username_pattern(), c[1]) {
        Err(PathError::InvalidUsername)
    } else if c.len() == 2 {
        Ok(KindView::User(c[1]))
    } else if !regex_matches(repo_pattern(), c[1]) {
        Err(PathError::InvalidRepoName)
    } else if is_reserved_name(c[2]) {
        Err(PathError::ReservedName)
    } else if is_icon && c.len() == 3 {
        Ok(KindView::UserIcon(c[1]))
    } else if is_icon && c.len() == 4 {
        Ok(KindView::RepoIcon(c[1], c[2]))
    } else {
        let rest = c.skip(3);
        if rest.len() > 0 && rest[0] == custom_tree_marker() {
            Ok(KindView::CustomTree(c[1], c[2], join_spec(rest, slash())))
        } else {
            Ok(KindView::DefaultTree(c[1], c[2], join_spec(rest, slash())))
        }
    }
}

/// What the components of a path name; there is at least one component.
pub fn parse_components(components: &Vec<String>) -> (res: Result<Kind, PathError>)
    requires
        components@.len() >= 1,
    ensures
        kind_result_view(res) == mount_kind_spec(components@.map_values(|s: String| s@)),
{
    let ghost c = components@.map_values(|s: String| s@);
    let n = components.len();
    let icon_name = ['I', 'c', 'o', 'n', '\r'];
    assert(icon_name@ == icon_file_name());
    let is_icon = str_is(components[n - 1].as_str(), &icon_name);
    assert(c.last() == components@[n - 1]@);

    if n == 1 {
        return Ok(Kind::Root);
    }

    let owner = components[1].clone();
    let user_re = "^([a-z\\d]+-)*[a-z\\d]+$";
    proof {
        reveal_strlit("^([a-z\\d]+-)*[a-z\\d]+$");
    }
    assert(user_re@ =~= username_pattern());
    if !regex_is_match(user_re, owner.as_str()) {
        return Err(PathError::InvalidUsername);
    }

    if n == 2 {
        return Ok(Kind::User(owner));
    }

    let repo = components[2].clone();
    let repo_re = "^([A-Za-z0-9_.-]){0,100}$";
    proof {
        reveal_strlit("^([A-Za-z0-9_.-]){0,100}$");
    }
    assert(repo_re@ =~= repo_pattern());
    if !regex_is_match(repo_re, owner.as_str()) {
        return Err(PathError::InvalidRepoName);
    }

    let git = ['.', 'g', 'i', 't'];
    let node_modules = ['n', 'o', 'd', 'e', '_', 'm', 'o', 'd', 'u', 'l', 'e', 's'];
    assert(git@ == seq!['.', 'g', 'i', 't']);
    assert(node_modules@ == seq!['n', 'o', 'd', 'e', '_', 'm', 'o', 'd', 'u', 'l', 'e', 's']);
    if str_is(repo.as_str(), &git) || str_is(repo.as_str(), &node_modules) {
        return Err(PathError::ReservedName);
    }

    if is_icon {
        if n == 3 {
            return Ok(Kind::Icon(Icon::User(owner)));
        }
        if n == 4 {
            return Ok(Kind::Icon(Icon::Repo(owner, repo)));
        }
    }

    let marker = ['^', 't', 'r', 'e', 'e'];
    assert(marker@ == custom_tree_marker());
    let custom = n > 3 && str_is(components[3].as_str(), &marker);
    assert(n > 3 ==> c.skip(3)[0] == components@[3]@);
    let path = join_tail(components);
    if custom {
        Ok(Kind::CustomTree(owner, repo, path))
    } else {
        Ok(Kind::DefaultTree(owner, repo, path))
    }
}

/// What a path in the mounted folder names; `None` for a path with no
/// components (the empty path).
pub fn parse(path: &str) -> (res: Option<Result<Kind, PathError>>)
    ensures
        path_components_of(path@).len() == 0 <==> res is None,
        res matches Some(r) ==> kind_result_view(r) == mount_kind_spec(path_components_of(path@)),
{
    let components = path_components(path);
    if components.len() == 0 {
        return None;
    }
    Some(parse_components(&components))
}

} // verus!
