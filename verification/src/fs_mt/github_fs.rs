use crate::fs::path::{Icon, Kind};
use crate::github::repo::Repo;
use crate::github::tree_entry::{FileKind, TreeEntry};
use crate::text::{chars_of, string_of};
use crate::reply::{epoch, one_second, Time};
use vstd::prelude::*;

verus! {

/// The attributes of a file or folder in the mounted folder.
#[derive(Debug, Clone, Copy, PartialEq, Eq, Structural)]
pub struct Attr {
    pub size: u64,
    pub blocks: u64,
    pub atime: Time,
    pub mtime: Time,
    pub ctime: Time,
    pub crtime: Time,
    pub kind: FileKind,
    pub perm: u16,
    pub nlink: u32,
    pub uid: u32,
    pub gid: u32,
    pub rdev: u32,
    pub flags: u32,
}

/// The answer to a request for attributes: how long it may be kept, and the
/// attributes.
#[derive(Debug, Clone, Copy, PartialEq, Eq, Structural)]
pub struct AttrReply {
    pub ttl: Time,
    pub attr: Attr,
}

/// Attributes with block count 8, owned by user 501 and group 20, with no
/// device number or flags, and all times at the epoch.
pub open spec fn attr_spec(size: u64, kind: FileKind, perm: u16, nlink: u32) -> Attr {
    Attr {
        size,
        blocks: 8,
        atime: epoch(),
        mtime: epoch(),
        ctime: epoch(),
        crtime: epoch(),
        kind,
        perm,
        nlink,
        uid: 501,
        gid: 20,
        rdev: 0,
        flags: 0,
    }
}

/// Builds the attributes of `attr_spec`.
fn make_attr(size: u64, kind: FileKind, perm: u16, nlink: u32) -> (res: Attr)
    ensures
        res == attr_spec(size, kind, perm, nlink),
{
    let t = Time { secs: 0, nanos: 0 };
    Attr { size, blocks: 8, atime: t, mtime: t, ctime: t, crtime: t, kind, perm, nlink, uid: 501, gid: 20, rdev: 0, flags: 0 }
}

/// The answer with `attr`, kept for one second.
pub open spec fn reply_spec(attr: Attr) -> AttrReply {
    AttrReply { ttl: one_second(), attr }
}

/// The attributes of an `Icon\r` file.
pub open spec fn icon_attr_spec() -> Attr {
    attr_spec(13, FileKind::RegularFile, 0o644, 1)
}

/// The attributes of a folder.
pub open spec fn dir_attr_spec() -> Attr {
    attr_spec(128, FileKind::Directory, 0o755, 4)
}

/// The attributes of a tree entry whose blob, if any, has `blob_size` bytes.
pub open spec fn entry_attr_spec(kind: FileKind, blob_size: Option<i32>) -> Attr {
    attr_spec(match blob_size { Some(s) => s as u64, None => 0 }, kind, 0o755, 4)
}

/// What answering a request for attributes takes.
#[derive(Debug)]
pub enum AttrPlan {
    /// The answer is known.
    Ready(AttrReply),
    /// The tree entry at `path` in the default branch of `owner/repo` must be
    /// looked up; the answer is then `entry_attr`.
    LookUpEntry { owner: String, repo: String, path: String },
    /// Attributes of this kind of path are not served.
    Unsupported,
}

/// What answering a request for the attributes of a path of kind `kind` takes.
pub fn getattr_plan(kind: &Kind) -> (res: AttrPlan)
    ensures
        match kind {
            Kind::Icon(_) => res == AttrPlan::Ready(reply_spec(icon_attr_spec())),
            Kind::Root | Kind::User(_) => res == AttrPlan::Ready(reply_spec(dir_attr_spec())),
            Kind::DefaultTree(owner, repo, path) => if path@.len() == 0 {
                res == AttrPlan::Ready(reply_spec(dir_attr_spec()))
            } else {
                res matches AttrPlan::LookUpEntry { owner: o, repo: r, path: p } && o == owner && r == repo && p == path
            },
            Kind::CustomTree(..) => res == AttrPlan::Unsupported,
        },
{
    let second = Time { secs: 1, nanos: 0 };
    let icon = AttrReply { ttl: second, attr: make_attr(13, FileKind::RegularFile, 0o644, 1) };
    let dir = AttrReply { ttl: second, attr: make_attr(128, FileKind::Directory, 0o755, 4) };
    match kind {
        Kind::Icon(_) => AttrPlan::Ready(icon),
        Kind::Root => AttrPlan::Ready(dir),
        Kind::User(_) => AttrPlan::Ready(dir),
        Kind::DefaultTree(owner, repo, path) => {
            if path.as_str().is_empty() {
                AttrPlan::Ready(dir)
            } else {
                AttrPlan::LookUpEntry { owner: owner.clone(), repo: repo.clone(), path: path.clone() }
            }
        },
        Kind::CustomTree(..) => AttrPlan::Unsupported,
    }
}

/// The answer for a tree entry whose blob, if any, has `blob_size` bytes.
pub fn entry_attr(entry: &TreeEntry, blob_size: Option<i32>) -> (res: AttrReply)
    ensures
        res == reply_spec(entry_attr_spec(if entry.blob_sha is Some { FileKind::RegularFile } else { FileKind::Directory }, blob_size)),
{
    let size: u64 = match blob_size {
        Some(s) => s as u64,
        None => 0,
    };
    AttrReply { ttl: Time { secs: 1, nanos: 0 }, attr: make_attr(size, entry.file_kind(), 0o755, 4) }
}

/// An entry of a folder listing.
#[derive(Debug)]
pub struct DirEntry {
    pub kind: FileKind,
    pub name: String,
}

/// The users that the top folder lists.
pub open spec fn root_users() -> Seq<Seq<char>> {
    seq!["samdenty"@, "microsoft"@, "facebook"@, "google"@, "surma"@, "samyk"@, "sindresorhus"@]
}

/// The top folder's listing: a folder for each of `root_users`.
pub fn root_listing() -> (res: Vec<DirEntry>)
    ensures
        res@.len() == root_users().len(),
        forall|i: int| 0 <= i < res@.len() ==> #[trigger] res@[i].kind == FileKind::Directory && res@[i].name@ == root_users()[i],
{
    let names: [&str; 7] = ["samdenty", "microsoft", "facebook", "google", "surma", "samyk", "sindresorhus"];
    assert(names@.map_values(|n: &str| n@) =~= root_users());
    let mut entries: Vec<DirEntry> = Vec::new();
    let mut i: usize = 0;
    while i < 7
        invariant
            i <= 7,
            names@.map_values(|n: &str| n@) == root_users(),
            entries@.len() == i,
            forall|j: int| 0 <= j < i ==> #[trigger] entries@[j].kind == FileKind::Directory && entries@[j].name@ == root_users()[j],
        decreases 7 - i,
    {
        assert(names@[i as int]@ == root_users()[i as int]);
        entries.push(DirEntry { kind: FileKind::Directory, name: names[i].to_string() });
        i += 1;
    }
    entries
}

/// The name of the file that holds a folder's icon.
fn icon_file() -> (res: String)
    ensures
        res@ == seq!['I', 'c', 'o', 'n', '\r'],
{
    let cs = ['I', 'c', 'o', 'n', '\r'];
    string_of(&cs)
}

/// A user's folder: a folder for each repository, then the `Icon\r` file.
pub fn user_listing(repos: &Vec<Repo>) -> (res: Vec<DirEntry>)
    ensures
        res@.len() == repos@.len() + 1,
        forall|i: int| 0 <= i < repos@.len() ==> #[trigger] res@[i].kind == FileKind::Directory && res@[i].name == repos@[i].name,
        res@.last().kind == FileKind::RegularFile,
        res@.last().name@ == seq!['I', 'c', 'o', 'n', '\r'],
{
    let mut entries: Vec<DirEntry> = Vec::new();
    let mut i: usize = 0;
    while i < repos.len()
        invariant
            i <= repos@.len(),
            entries@.len() == i,
            forall|j: int| 0 <= j < i ==> #[trigger] entries@[j].kind == FileKind::Directory && entries@[j].name == repos@[j].name,
        decreases repos@.len() - i,
    {
        entries.push(DirEntry { kind: FileKind::Directory, name: repos[i].name.clone() });
        i += 1;
    }
    entries.push(DirEntry { kind: FileKind::RegularFile, name: icon_file() });
    entries
}

/// The path from folder `from` to `to`, as `relative_path::RelativePath::relative`
/// gives it.
pub uninterp spec fn relative_path_of(from: Seq<char>, to: Seq<char>) -> Seq<char>;

/// Finds the path from folder `from` to `to` with `RelativePath::relative`.
/// Trusted: the result is what `relative_path_of` names for the two paths.
#[verifier::external_body]
fn relative_path(from: &str, to: &str) -> (res: String)
    ensures
        res@ == relative_path_of(from@, to@),
{
    relative_path::RelativePath::new(from).relative(relative_path::RelativePath::new(to)).into_string()
}

/// A folder of a repository's tree: each entry, named by its path relative to
/// the folder, then the `Icon\r` file.
pub fn tree_listing(dir: &str, entries: &Vec<TreeEntry>) -> (res: Vec<DirEntry>)
    ensures
        res@.len() == entries@.len() + 1,
        forall|i: int| 0 <= i < entries@.len() ==> {
            &&& #[trigger] res@[i].kind == (if entries@[i].blob_sha is Some { FileKind::RegularFile } else { FileKind::Directory })
            &&& res@[i].name@ == relative_path_of(dir@, entries@[i].path@)
        },
        res@.last().kind == FileKind::RegularFile,
        res@.last().name@ == seq!['I', 'c', 'o', 'n', '\r'],
{
    let mut listing: Vec<DirEntry> = Vec::new();
    let mut i: usize = 0;
    while i < entries.len()
        invariant
            i <= entries@.len(),
            listing@.len() == i,
            forall|j: int| 0 <= j < i ==> {
                &&& #[trigger] listing@[j].kind == (if entries@[j].blob_sha is Some { FileKind::RegularFile } else { FileKind::Directory })
                &&& listing@[j].name@ == relative_path_of(dir@, entries@[j].path@)
            },
        decreases entries@.len() - i,
    {
        let name = relative_path(dir, entries[i].path.as_str());
        listing.push(DirEntry { kind: entries[i].file_kind(), name });
        i += 1;
    }
    listing.push(DirEntry { kind: FileKind::RegularFile, name: icon_file() });
    listing
}

/// Where the data of an extended attribute comes from.
#[derive(Debug)]
pub enum XattrSource {
    /// The Finder info that marks an `Icon\r` file hidden.
    FinderInfoHidden,
    /// The Finder info that gives a folder a custom icon.
    FinderInfoHasIcon,
    /// The resource fork of the icon rendered from this page.
    IconFork(String),
    /// The attribute does not exist.
    Missing,
}

/// The Finder info attribute's name.
pub open spec fn finder_info_name() -> Seq<char> {
    "com.apple.FinderInfo"@
}

/// The resource fork attribute's name.
pub open spec fn rsrc_fork_name() -> Seq<char> {
    "com.apple.ResourceFork"@
}

/// The page that renders the icon of a user.
pub open spec fn icon_page_spec(user: Seq<char>) -> Seq<char> {
    "http://127.0.0.1:8080/a.html?repo="@ + user
}

/// The user whose icon an `Icon\r` file shows.
pub open spec fn icon_user(icon: Icon) -> Seq<char> {
    match icon {
        Icon::User(u) => u@,
        Icon::Repo(u, _) => u@,
    }
}

/// Where the data of attribute `name` of a path of kind `kind` comes from:
/// an `Icon\r` file has the hidden Finder info and the resource fork of its
/// user's icon; user and tree folders have the custom-icon Finder info.
pub fn xattr_source(kind: &Kind, name: &str) -> (res: XattrSource)
    ensures
        match kind {
            Kind::Icon(icon) => if name@ == finder_info_name() {
                res is FinderInfoHidden
            } else if name@ == rsrc_fork_name() {
                res matches XattrSource::IconFork(url) && url@ == icon_page_spec(icon_user(*icon))
            } else {
                res is Missing
            },
            Kind::User(_) | Kind::DefaultTree(..) => if name@ == finder_info_name() {
                res is FinderInfoHasIcon
            } else {
                res is Missing
            },
            _ => res is Missing,
        },
{
    let finder_info = "com.apple.FinderInfo";
    let rsrc_fork = "com.apple.ResourceFork";
    let is_finder_info = crate::github::branches::same_text(name, finder_info);
    let is_rsrc_fork = crate::github::branches::same_text(name, rsrc_fork);
    match kind {
        Kind::Icon(icon) => {
            if is_finder_info {
                XattrSource::FinderInfoHidden
            } else if is_rsrc_fork {
                let user = match icon {
                    Icon::User(u) => u,
                    Icon::Repo(u, _) => u,
                };
                let mut url = chars_of("http://127.0.0.1:8080/a.html?repo=");
                let mut u = chars_of(user.as_str());
                url.append(&mut u);
                XattrSource::IconFork(string_of(url.as_slice()))
            } else {
                XattrSource::Missing
            }
        },
        Kind::User(_) | Kind::DefaultTree(..) => {
            if is_finder_info {
                XattrSource::FinderInfoHasIcon
            } else {
                XattrSource::Missing
            }
        },
        _ => XattrSource::Missing,
    }
}

/// The Finder info that marks a file hidden and names its type `icon` and
/// creator `MACS`.
pub open spec fn finder_info_hidden_spec() -> Seq<u8> {
    seq![0x69u8, 0x63, 0x6F, 0x6E, 0x4D, 0x41, 0x43, 0x53, 0x40, 0x10] + Seq::new(22, |i: int| 0u8)
}

/// The Finder info that tells the Finder a folder has a custom icon.
pub open spec fn finder_info_has_icon_spec() -> Seq<u8> {
    Seq::new(8, |i: int| 0u8) + seq![0x04u8] + Seq::new(23, |i: int| 0u8)
}

/// 32 bytes: `head`, then zeros.
fn padded32(head: &[u8]) -> (res: Vec<u8>)
    requires
        head@.len() <= 32,
    ensures
        res@ == head@ + Seq::new((32 - head@.len()) as nat, |i: int| 0u8),
{
    let mut v: Vec<u8> = Vec::new();
    let mut i: usize = 0;
    while i < head.len()
        invariant
            i <= head@.len(),
            v@ == head@.take(i as int),
        decreases head@.len() - i,
    {
        v.push(head[i]);
        i += 1;
        assert(v@ =~= head@.take(i as int));
    }
    assert(head@.take(head@.len() as int) == head@);
    while v.len() < 32
        invariant
            head@.len() <= v@.len() <= 32,
            v@ == head@ + Seq::new((v@.len() - head@.len()) as nat, |k: int| 0u8),
        decreases 32 - v@.len(),
    {
        v.push(0);
        assert(v@ =~= head@ + Seq::new((v@.len() - head@.len()) as nat, |k: int| 0u8));
    }
    v
}

/// The Finder info that marks an `Icon\r` file hidden.
pub fn finder_info_hidden() -> (res: Vec<u8>)
    ensures
        res@ == finder_info_hidden_spec(),
{
    let head: [u8; 10] = [0x69, 0x63, 0x6F, 0x6E, 0x4D, 0x41, 0x43, 0x53, 0x40, 0x10];
    let v = padded32(&head);
    assert(v@ =~= finder_info_hidden_spec());
    v
}

/// The Finder info that gives a folder its custom icon.
pub fn finder_info_has_icon() -> (res: Vec<u8>)
    ensures
        res@ == finder_info_has_icon_spec(),
{
    let head: [u8; 9] = [0, 0, 0, 0, 0, 0, 0, 0, 0x04];
    let v = padded32(&head);
    assert(v@ =~= finder_info_has_icon_spec());
    v
}

/// An answer to a request for an attribute's data.
#[derive(Debug)]
pub enum XattrReply {
    /// The data's length, when the request asked for no data.
    Size(u32),
    /// The data.
    Data(Vec<u8>),
}

/// Answers a request for an attribute's data: its length when the request
/// has room for none, else the data.
pub fn xattr_reply(data: Vec<u8>, size: u32) -> (res: XattrReply)
    requires
        data@.len() <= u32::MAX,
    ensures
        size == 0 ==> res == XattrReply::Size(data@.len() as u32),
        size != 0 ==> res == XattrReply::Data(data),
{
    if size == 0 {
        XattrReply::Size(data.len() as u32)
    } else {
        XattrReply::Data(data)
    }
}

/// The `size` bytes of a file's data from `offset` on.
pub fn read_range(data: &Vec<u8>, offset: u64, size: u32) -> (res: Vec<u8>)
    requires
        offset + size <= data@.len(),
    ensures
        res@ == data@.subrange(offset as int, offset + size),
{
    let n = data.len();
    assert(offset + size <= n);
    let start = offset as usize;
    let end = start + size as usize;
    let mut out: Vec<u8> = Vec::new();
    let mut i: usize = start;
    while i < end
        invariant
            start <= i <= end,
            end <= data@.len(),
            start == offset,
            end == offset + size,
            out@ == data@.subrange(start as int, i as int),
        decreases end - i,
    {
        out.push(data[i]);
        i += 1;
        assert(out@ =~= data@.subrange(start as int, i as int));
    }
    out
}

} // verus!
