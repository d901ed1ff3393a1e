use repositories::github::blob::Blob;
use repositories::github::branches::{Branch, BranchData, BranchError, Branches, CommitData};
use repositories::github::repo::{NewRepo, RawNewRepo, RawRepo, Repo, RepoData, UserRepos};
use repositories::github::tree::{RootData, Tree, TreeData};
use repositories::github::tree_entry::{FileKind, TreeEntry};
use repositories::github::user::User;
use std::sync::Arc;

fn data(name: &str, sha: &str) -> BranchData {
    BranchData { name: name.into(), commit: CommitData { sha: sha.into() } }
}

#[test]
fn branches_from_api_data() {
    let b = Branches::from_data("o", "r", vec![data("main", "1"), data("dev", "2"), data("main", "3")]);
    assert_eq!(b.entries.len(), 3);
    assert_eq!(b.entries[1].owner, "o");
    assert_eq!(b.entries[1].tree_sha, "2");
    let main = b.get_branch("main").unwrap();
    assert_eq!(main.tree_sha, "1");
    assert!(b.get_branch("nope").is_none());
    assert_eq!(b.default_branch("dev").unwrap().tree_sha, "2");
    assert_eq!(b.default_branch("x").unwrap_err(), BranchError::MissingDefaultBranch);
}

#[test]
fn stored_branches() {
    assert!(Branches::from_stored(vec![]).is_none());
    let b = Branch { owner: "o".into(), repo: "r".into(), name: "n".into(), tree_sha: "t".into() };
    assert_eq!(Branches::from_stored(vec![b.clone()]).unwrap().entries[0].name, "n");
}

fn item(path: &str, kind: &str, sha: &str, size: Option<i32>) -> TreeData {
    TreeData { path: path.into(), mode: "100644".into(), kind: kind.into(), sha: sha.into(), size }
}

#[test]
fn tree_from_api_data() {
    let (tree, blobs) = Tree::from_data(RootData {
        sha: "root".into(),
        tree: vec![item("src", "tree", "s1", None), item("src/a.rs", "blob", "b1", Some(12)), item("b", "commit", "c", None)],
    });
    assert_eq!(tree.sha, "root");
    assert_eq!(tree.entries.len(), 3);
    assert!(tree.entries.iter().all(|e| e.sha == "root"));
    assert!(!tree.entries[0].is_file());
    assert!(tree.entries[1].is_file());
    assert_eq!(tree.entries[1].blob_sha.as_deref(), Some("b1"));
    assert_eq!(tree.entries[1].file_kind(), FileKind::RegularFile);
    assert_eq!(tree.entries[2].file_kind(), FileKind::Directory);
    assert_eq!(blobs.len(), 1);
    assert_eq!((blobs[0].sha.as_str(), blobs[0].size, blobs[0].data.is_none()), ("b1", 12, true));
}

#[test]
fn stored_tree_and_dir_pattern() {
    assert!(Tree::from_stored(vec![]).is_none());
    let e = TreeEntry { sha: "x".into(), path: "a".into(), mode: "m".into(), blob_sha: None };
    assert_eq!(Tree::from_stored(vec![e]).unwrap().sha, "x");
    assert_eq!(Tree::dir_pattern(""), "^[^/]*$");
    assert_eq!(Tree::dir_pattern("src"), "^src/[^/]*$");
    assert_eq!(Tree::dir_pattern("a.b"), "^a\\.b/[^/]*$");
}

#[test]
fn blobs() {
    let b = Blob::from_bytes("sha", vec![1, 2, 3]);
    assert_eq!(b.size, 3);
    assert_eq!(b.into_data().unwrap(), vec![1, 2, 3]);
    let empty = Blob { sha: "s".into(), size: 9, data: None };
    assert_eq!(empty.into_data().unwrap_err().sha, "s");
}

fn raw(homepage: Option<&str>) -> RawRepo {
    RawRepo {
        name: "n".into(),
        owner_login: "o".into(),
        private: false,
        default_branch: "main".into(),
        fork: true,
        description: None,
        homepage: homepage.map(|h| h.to_string()),
    }
}

#[test]
fn repo_data_drops_empty_homepage() {
    assert_eq!(RepoData::from_raw(raw(Some(""))).homepage, None);
    assert_eq!(RepoData::from_raw(raw(Some("https://x.y"))).homepage.as_deref(), Some("https://x.y"));
    let r = RepoData::from_raw(raw(None));
    assert_eq!((r.owner.as_str(), r.name.as_str(), r.default_branch.as_str(), r.fork), ("o", "n", "main", true));
}

#[test]
fn new_repo_and_user() {
    let r = NewRepo::from_raw(RawNewRepo {
        id: 7,
        name: "n".into(),
        owner_login: "o".into(),
        private: true,
        fork: false,
        description: Some("d".into()),
    });
    assert_eq!((r.id, r.user_name.as_str(), r.private), (7, "o", true));
    let u = User::new(Arc::new("sam".to_string()), None, vec![1, 2]);
    assert_eq!(u.repos, vec![1, 2]);
    assert!(UserRepos::from_stored(Vec::<Repo>::new()).is_none());
}

fn entry(path: &str, blob: Option<&str>) -> TreeEntry {
    TreeEntry { sha: "root".into(), path: path.into(), mode: "100644".into(), blob_sha: blob.map(|b| b.into()) }
}

fn sample_tree() -> Tree {
    Tree {
        sha: "root".into(),
        entries: vec![
            entry("README.md", Some("b1")),
            entry("src", None),
            entry("src/lib.rs", Some("b2")),
            entry("src/a.b", Some("b3")),
            entry("src/deep/x.rs", Some("b4")),
            entry("srcx/y.rs", Some("b5")),
        ],
    }
}

#[test]
fn dir_entries_keeps_direct_children() {
    let root = sample_tree().dir_entries("");
    assert_eq!(root.sha, "root");
    let paths: Vec<&str> = root.entries.iter().map(|e| e.path.as_str()).collect();
    assert_eq!(paths, vec!["README.md", "src"]);

    let src = sample_tree().dir_entries("src");
    let paths: Vec<&str> = src.entries.iter().map(|e| e.path.as_str()).collect();
    assert_eq!(paths, vec!["src/lib.rs", "src/a.b"]);

    let deep = sample_tree().dir_entries("src/deep");
    assert_eq!(deep.entries.len(), 1);
    assert_eq!(deep.entries[0].blob_sha.as_deref(), Some("b4"));

    assert!(sample_tree().dir_entries("nothing").entries.is_empty());
}

#[test]
fn dir_entries_escapes_the_folder_name() {
    let tree = Tree {
        sha: "t".into(),
        entries: vec![entry("a.b/c", Some("1")), entry("axb/c", Some("2"))],
    };
    let found = tree.dir_entries("a.b");
    assert_eq!(found.entries.len(), 1);
    assert_eq!(found.entries[0].path, "a.b/c");
}

#[test]
fn entry_at_finds_the_first_entry_with_the_path() {
    let e = sample_tree().entry_at("src/lib.rs").unwrap();
    assert_eq!(e.blob_sha.as_deref(), Some("b2"));
    assert!(sample_tree().entry_at("src").unwrap().blob_sha.is_none());
    assert!(sample_tree().entry_at("missing").is_none());

    let twice = Tree { sha: "t".into(), entries: vec![entry("x", Some("first")), entry("x", Some("second"))] };
    assert_eq!(twice.entry_at("x").unwrap().blob_sha.as_deref(), Some("first"));
}

#[test]
fn dir_pattern_escapes_meta_characters() {
    assert_eq!(Tree::dir_pattern("a.b-c~(d)"), r"^a\.b\-c\~\(d\)/[^/]*$");
    assert_eq!(Tree::dir_pattern(""), "^[^/]*$");
    assert_eq!(Tree::dir_pattern("plain"), "^plain/[^/]*$");
}
