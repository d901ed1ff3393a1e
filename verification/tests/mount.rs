use repositories::fs::path::{Icon, Kind};
use repositories::fs_mt::github_fs::{
    entry_attr, finder_info_has_icon, finder_info_hidden, getattr_plan, read_range, root_listing, tree_listing,
    user_listing, xattr_reply, xattr_source, AttrPlan, XattrReply, XattrSource,
};
use repositories::github::repo::Repo;
use repositories::github::tree_entry::{FileKind, TreeEntry};
use repositories::hello;
use repositories::github::user::Organization;
use repositories::native::{command_for, editor_path, finder_path, File, Folder, Link, Message, Repo as RepoLink, User as UserLink};

#[test]
fn attributes_by_kind() {
    match getattr_plan(&Kind::Icon(Icon::User("u".into()))) {
        AttrPlan::Ready(r) => {
            let a = r.attr;
            assert_eq!((r.ttl.secs, r.ttl.nanos), (1, 0));
            assert_eq!((a.size, a.kind, a.perm, a.nlink), (13, FileKind::RegularFile, 0o644, 1));
            assert_eq!((a.blocks, a.uid, a.gid, a.rdev, a.flags), (8, 501, 20, 0, 0));
            assert_eq!((a.atime.secs, a.mtime.secs, a.ctime.secs, a.crtime.secs), (0, 0, 0, 0));
        }
        other => panic!("{:?}", other),
    }
    match getattr_plan(&Kind::DefaultTree("o".into(), "r".into(), "".into())) {
        AttrPlan::Ready(r) => {
            assert_eq!(r.ttl.secs, 1);
            let a = r.attr;
            assert_eq!((a.size, a.kind, a.perm, a.nlink), (128, FileKind::Directory, 0o755, 4));
        }
        other => panic!("{:?}", other),
    }
    assert!(matches!(getattr_plan(&Kind::DefaultTree("o".into(), "r".into(), "a/b".into())), AttrPlan::LookUpEntry { path, .. } if path == "a/b"));
    assert!(matches!(getattr_plan(&Kind::CustomTree("o".into(), "r".into(), "p".into())), AttrPlan::Unsupported));
    let file = TreeEntry { sha: "t".into(), path: "a".into(), mode: "m".into(), blob_sha: Some("b".into()) };
    let r = entry_attr(&file, Some(42));
    assert_eq!(r.ttl.secs, 1);
    let a = r.attr;
    assert_eq!((a.size, a.kind, a.perm, a.nlink, a.uid, a.gid), (42, FileKind::RegularFile, 0o755, 4, 501, 20));
    assert_eq!(a.mtime.secs, 0);
    let dir = TreeEntry { sha: "t".into(), path: "d".into(), mode: "m".into(), blob_sha: None };
    assert_eq!(entry_attr(&dir, None).attr.size, 0);
    assert_eq!(entry_attr(&dir, None).attr.kind, FileKind::Directory);
}

#[test]
fn listings() {
    let root = root_listing();
    assert_eq!(root.len(), 7);
    assert_eq!(root[6].name, "sindresorhus");
    let repo = Repo {
        owner: "o".into(),
        name: "r".into(),
        default_branch: "main".into(),
        description: None,
        homepage: None,
        private: false,
        fork: false,
    };
    let l = user_listing(&vec![repo]);
    assert_eq!((l[0].name.as_str(), l[0].kind), ("r", FileKind::Directory));
    assert_eq!((l[1].name.as_str(), l[1].kind), ("Icon\r", FileKind::RegularFile));
    let entries = vec![TreeEntry { sha: "t".into(), path: "src/main.rs".into(), mode: "m".into(), blob_sha: Some("b".into()) }];
    let l = tree_listing("src", &entries);
    assert_eq!(l[0].name, "main.rs");
    assert_eq!(l[0].kind, FileKind::RegularFile);
    assert_eq!(l[1].name, "Icon\r");
}

#[test]
fn extended_attributes() {
    let icon = Kind::Icon(Icon::Repo("sam".into(), "r".into()));
    assert!(matches!(xattr_source(&icon, "com.apple.FinderInfo"), XattrSource::FinderInfoHidden));
    assert!(matches!(xattr_source(&icon, "com.apple.ResourceFork"), XattrSource::IconFork(u) if u == "http://127.0.0.1:8080/a.html?repo=sam"));
    assert!(matches!(xattr_source(&icon, "other"), XattrSource::Missing));
    assert!(matches!(xattr_source(&Kind::User("u".into()), "com.apple.FinderInfo"), XattrSource::FinderInfoHasIcon));
    assert!(matches!(xattr_source(&Kind::Root, "com.apple.FinderInfo"), XattrSource::Missing));
    let hidden = finder_info_hidden();
    assert_eq!(hidden.len(), 32);
    assert_eq!(&hidden[..10], &[0x69, 0x63, 0x6F, 0x6E, 0x4D, 0x41, 0x43, 0x53, 0x40, 0x10]);
    let has_icon = finder_info_has_icon();
    assert_eq!(has_icon.len(), 32);
    assert_eq!(has_icon[8], 4);
    assert!(matches!(xattr_reply(vec![1, 2, 3], 0), XattrReply::Size(3)));
    assert!(matches!(xattr_reply(vec![1, 2, 3], 9), XattrReply::Data(d) if d == vec![1, 2, 3]));
    assert_eq!(read_range(&vec![1, 2, 3, 4], 1, 2), vec![2, 3]);
}

fn orgs() -> Vec<Organization> {
    vec![Organization { login: "a".into() }, Organization { login: "b".into() }]
}

#[test]
fn hello_lookup_and_attributes() {
    let o = orgs();
    let icon = hello::lookup(5, "Icon\r", &o).unwrap();
    assert_eq!((icon.attr.ino, icon.attr.size, icon.generation, icon.ttl.secs), (10, 0, 0, 1));
    let b = hello::lookup(1, "b", &o).unwrap();
    assert_eq!((b.attr.ino, b.attr.uid, b.attr.gid, b.attr.rdev, b.attr.flags), (3, 501, 20, 0, 0));
    assert_eq!((b.generation, b.ttl.secs, b.attr.atime.secs), (0, 1, 0));
    assert!(hello::lookup(2, "b", &o).is_none());
    assert!(hello::lookup(1, "c", &o).is_none());
    assert_eq!(hello::getattr(1, &o).unwrap().attr.kind, FileKind::Directory);
    assert_eq!(hello::getattr(10, &o).unwrap().attr.size, 13);
    let org = hello::getattr(3, &o).unwrap();
    assert_eq!((org.attr.ino, org.attr.perm, org.attr.uid, org.attr.gid, org.ttl.secs), (3, 0o755, 501, 20, 1));
    assert!(hello::getattr(4, &o).is_none());
    assert!(hello::getattr(0, &o).is_none());
    assert_eq!(hello::read(10, 6).unwrap(), b"World!\n".to_vec());
    assert!(hello::read(2, 0).is_none());
}

#[test]
fn hello_readdir_resumes_at_offset() {
    let o = orgs();
    let all = hello::readdir(1, 0, &o).unwrap();
    let names: Vec<&str> = all.iter().map(|e| e.name.as_str()).collect();
    assert_eq!(names, vec![".", "..", "a", "b"]);
    assert_eq!(all[3].ino, 3);
    assert_eq!(all[3].next, 4);
    let rest = hello::readdir(1, 2, &o).unwrap();
    assert_eq!(rest.len(), 2);
    assert_eq!((rest[0].name.as_str(), rest[0].next), ("a", 3));
    assert!(hello::readdir(1, 9, &o).unwrap().is_empty());
    assert!(hello::readdir(1, -1, &o).unwrap().is_empty());
    let four = hello::readdir(4, 0, &o).unwrap();
    assert_eq!(four[2].ino, 10);
    assert!(hello::readdir(7, 0, &o).is_none());
}

#[test]
fn native_commands() {
    let file = Link::File(File { user: "u".into(), repo: "r".into(), tree: "t".into(), path: "a/b".into() });
    assert_eq!(editor_path(&file), "u/r/a/b");
    assert_eq!(finder_path(&file), "u/r/a/b");
    let folder = Link::Folder(Folder { user: "u".into(), repo: "r".into(), tree: "t".into(), path: None });
    assert_eq!(editor_path(&folder), "u/r/");
    assert_eq!(editor_path(&Link::User(UserLink { user: "u".into() })), "/");
    assert_eq!(finder_path(&Link::User(UserLink { user: "u".into() })), "u");
    let c = command_for(&Message::RevealInFinder(file)).unwrap();
    assert_eq!(c.program, "open");
    assert_eq!(c.args, vec!["-R".to_string(), "/Users/samdenty/Projects/repos/test/u/r/a/b".to_string()]);
    let c = command_for(&Message::OpenInEditor(Link::Repo(RepoLink { user: "u".into(), repo: "r".into() }))).unwrap();
    assert_eq!(c.program, "/usr/local/bin/code-insiders");
    assert_eq!(c.args, vec!["/Users/samdenty/Projects/repos/test/u/r".to_string()]);
    assert!(command_for(&Message::OpenFile(File { user: "u".into(), repo: "r".into(), tree: "t".into(), path: "p".into() })).is_none());
}
