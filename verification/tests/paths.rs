use repositories::fs::path::{parse, Icon, Kind, PathError};
use repositories::fs::path_parser::{parse_path, PathKind};
use repositories::fs_mt::path::parse as parse_mounted;

#[test]
fn readme_path_names_a_file_in_a_repo() {
    match parse_path("/username/repo/README.md") {
        Some(PathKind::Content { user, repo, path }) => {
            assert_eq!((user.as_str(), repo.as_str(), path.as_str()), ("username", "repo", "README.md"));
        }
        other => panic!("{:?}", other),
    }
}

#[test]
fn path_parser_levels() {
    assert!(matches!(parse_path("/"), Some(PathKind::Root)));
    assert!(matches!(parse_path("/samdenty"), Some(PathKind::User(u)) if u == "samdenty"));
    assert!(matches!(parse_path("/a/b/"), Some(PathKind::Repo { user, repo }) if user == "a" && repo == "b"));
    assert!(matches!(parse_path("/a/b/c//d/./e"), Some(PathKind::Content { path, .. }) if path == "c/d/e"));
    assert!(parse_path("").is_none());
}

#[test]
fn parse_kinds() {
    assert!(matches!(parse("/"), Some(Ok(Kind::Root))));
    assert!(matches!(parse("/sam-denty"), Some(Ok(Kind::User(u))) if u == "sam-denty"));
    assert!(matches!(parse("/sam/Icon\r"), Some(Ok(Kind::Icon(Icon::User(u)))) if u == "sam"));
    assert!(matches!(parse("/sam/repo/Icon\r"), Some(Ok(Kind::Icon(Icon::Repo(u, r)))) if u == "sam" && r == "repo"));
    assert!(matches!(parse("/sam/repo"), Some(Ok(Kind::DefaultTree(u, r, p))) if u == "sam" && r == "repo" && p.is_empty()));
    assert!(matches!(parse("/sam/repo/src/main.rs"), Some(Ok(Kind::DefaultTree(_, _, p))) if p == "src/main.rs"));
    assert!(matches!(parse("/sam/repo/^tree/dev/x"), Some(Ok(Kind::CustomTree(_, _, p))) if p == "^tree/dev/x"));
    assert!(matches!(parse("/sam/repo/src/Icon\r"), Some(Ok(Kind::DefaultTree(_, _, p))) if p == "src/Icon\r"));
    assert!(parse("").is_none());
}

#[test]
fn parse_rejects_bad_users() {
    assert!(matches!(parse("/Sam"), Some(Err(PathError::InvalidUsername))));
    assert!(matches!(parse("/-sam/repo"), Some(Err(PathError::InvalidUsername))));
    assert!(matches!(parse("/sam--x"), Some(Err(PathError::InvalidUsername))));
    assert!(matches!(parse("/sam/.git"), Some(Ok(Kind::DefaultTree(_, r, _))) if r == ".git"));
}

#[test]
fn mounted_parse_reserves_names() {
    assert!(matches!(parse_mounted("/sam/.git"), Some(Err(PathError::ReservedName))));
    assert!(matches!(parse_mounted("/sam/node_modules/x"), Some(Err(PathError::ReservedName))));
    assert!(matches!(parse_mounted("/sam/repo/Icon\r"), Some(Ok(Kind::Icon(Icon::Repo(_, _))))));
    assert!(matches!(parse_mounted("/"), Some(Ok(Kind::Root))));
}

#[test]
fn paths_split_as_the_platform_splits_them() {
    match parse_path("//username//repo/./src/lib.rs/") {
        Some(PathKind::Content { user, repo, path }) => {
            assert_eq!((user.as_str(), repo.as_str(), path.as_str()), ("username", "repo", "src/lib.rs"));
        }
        other => panic!("{:?}", other),
    }
    assert!(parse_path("").is_none());
    assert!(matches!(parse_path("/"), Some(PathKind::Root)));
}

#[test]
fn components_agree_with_std_paths() {
    use_components();
}

fn use_components() {
    for p in [
        "", "/", "//", "a", "/a", "a/", "a//b", "./a", ".", "./", "/.", "/./a", "a/./b/.", "a/../b", "..",
        "/a//b/./c/", ".hidden/x", "a/.b", "//a///b//", "./.", "a/.",
    ] {
        let ours = repositories::fs::path_parser::path_components(p);
        let std: Vec<String> = std::path::Path::new(p).iter().map(|c| c.to_string_lossy().into_owned()).collect();
        assert_eq!(ours, std, "components of {:?}", p);
    }
}

#[test]
fn doubled_dot_and_trailing_separators_parse_alike() {
    let plain = format!("{:?}", parse_path("/a/b/c"));
    for p in ["/a//b/./c/", "//a/b/c", "/a/./b/c", "/a/b/c/", "/a/b//c//"] {
        assert_eq!(format!("{:?}", parse_path(p)), plain);
    }
    assert_eq!(format!("{:?}", parse_path("/a/")), format!("{:?}", parse_path("/a")));
}
