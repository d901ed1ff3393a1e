use repositories::github::blob::Blob;
use repositories::github::branches::Branch;
use repositories::github::repo::Repo;
use repositories::github::store::{like_match, Store};
use repositories::github::tree_entry::TreeEntry;

fn repo(owner: &str, name: &str, branch: &str) -> Repo {
    Repo {
        owner: owner.into(),
        name: name.into(),
        default_branch: branch.into(),
        description: None,
        homepage: None,
        private: false,
        fork: false,
    }
}

fn branch(owner: &str, repo: &str, name: &str, sha: &str) -> Branch {
    Branch { owner: owner.into(), repo: repo.into(), name: name.into(), tree_sha: sha.into() }
}

#[test]
fn names_match_as_like_patterns() {
    assert!(like_match("SamDenty", "samdenty"));
    assert!(!like_match("samdenty", "samdent"));
    assert!(!like_match("samdent", "samdenty"));
    assert!(like_match("a-b", "a_b"));
    assert!(!like_match("a-b", "a_"));
    assert!(like_match("repositories", "repo%"));
    assert!(like_match("", "%"));
    assert!(like_match("abc", "%c"));
    assert!(!like_match("abd", "%c"));
}

#[test]
fn repos_read_back_what_was_written() {
    let mut store = Store::new();
    assert!(store.repo("o", "r").is_none());
    store.put_repo(repo("o", "r", "main"));
    store.put_repo(repo("o", "s", "dev"));
    store.put_repo(repo("x", "r", "trunk"));
    assert_eq!(store.repo("O", "R").unwrap().default_branch, "main");
    store.put_repo(repo("o", "r", "master"));
    assert_eq!(store.repos.len(), 3);
    assert_eq!(store.repo("o", "r").unwrap().default_branch, "master");
    store.put_repo(repo("O", "r", "other"));
    assert_eq!(store.repos.len(), 4);
    assert_eq!(store.repo("O", "r").unwrap().default_branch, "master");
    assert_eq!(store.repo("_", "r").unwrap().default_branch, "master");
    let names: Vec<String> = store.repos_of("o").into_iter().map(|r| r.name).collect();
    assert_eq!(names, vec!["r".to_string(), "s".to_string(), "r".to_string()]);
}

#[test]
fn branches_are_replaced_per_repository() {
    let mut store = Store::new();
    assert!(store.stored_default_branch("o", "r").is_none());
    store.put_branches("o", "r", vec![branch("o", "r", "main", "1"), branch("o", "r", "dev", "2")]);
    store.put_branches("x", "y", vec![branch("x", "y", "main", "9")]);
    assert_eq!(store.stored_default_branch("O", "r").unwrap().name, "main");
    store.put_branches("o", "r", vec![branch("o", "r", "next", "3")]);
    let names: Vec<String> = store.branches_of("o", "r").into_iter().map(|b| b.name).collect();
    assert_eq!(names, vec!["next".to_string()]);
    assert_eq!(store.branches_of("x", "y").len(), 1);
}

#[test]
fn trees_and_blobs_read_back() {
    let mut store = Store::new();
    let e = TreeEntry { sha: "t".into(), path: "a".into(), mode: "m".into(), blob_sha: Some("b".into()) };
    store.put_tree("t".into(), vec![e]);
    assert_eq!(store.tree("t").unwrap()[0].path, "a");
    assert!(store.tree("u").is_none());

    store.put_blob(Blob { sha: "b".into(), size: 3, data: None }, true);
    store.put_blob(Blob { sha: "b".into(), size: 3, data: Some(vec![1, 2, 3]) }, true);
    assert!(store.blob("b").unwrap().data.is_none());
    store.put_blob(Blob { sha: "b".into(), size: 3, data: Some(vec![1, 2, 3]) }, false);
    assert_eq!(store.blob("b").unwrap().data, Some(vec![1, 2, 3]));
    assert_eq!(store.blobs.len(), 1);
}
