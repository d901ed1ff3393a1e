use crate::github::branches::same_text;
use crate::github::tree_entry::FileKind;
use crate::github::user::Organization;
use crate::reply::{epoch, one_second, Time};
use crate::text::{chars_of, string_of};
use vstd::prelude::*;

verus! {

/// The attributes of an entry of the organizations folder.
#[derive(Debug, Clone, Copy, PartialEq, Eq, Structural)]
pub struct HelloAttr {
    pub ino: u64,
    pub size: u64,
    pub blocks: u64,
    pub atime: Time,
    pub mtime: Time,
    pub ctime: Time,
    pub crtime: Time,
    pub kind: FileKind,
    pub perm: u16,
    pub nlink: u32,
    pub uid: u32,
    pub gid: u32,
    pub rdev: u32,
    pub flags: u32,
}

/// The answer to a request for attributes: how long it may be kept, and
/// the attributes.
#[derive(Debug, Clone, Copy, PartialEq, Eq, Structural)]
pub struct AttrReply {
    pub ttl: Time,
    pub attr: HelloAttr,
}

/// The answer to a lookup: how long it may be kept, the attributes, and the
/// entry's generation.
#[derive(Debug, Clone, Copy, PartialEq, Eq, Structural)]
pub struct EntryReply {
    pub ttl: Time,
    pub attr: HelloAttr,
    pub generation: u64,
}

/// Attributes owned by user 501 and group 20, with no device number or
/// flags, and all times at the epoch.
pub open spec fn attr_spec(ino: u64, size: u64, blocks: u64, kind: FileKind, perm: u16, nlink: u32) -> HelloAttr {
    HelloAttr {
        ino,
        size,
        blocks,
        atime: epoch(),
        mtime: epoch(),
        ctime: epoch(),
        crtime: epoch(),
        kind,
        perm,
        nlink,
        uid: 501,
        gid: 20,
        rdev: 0,
        flags: 0,
    }
}

/// Builds the attributes of `attr_spec`.
pub fn make_attr(ino: u64, size: u64, blocks: u64, kind: FileKind, perm: u16, nlink: u32) -> (res: HelloAttr)
    ensures
        res == attr_spec(ino, size, blocks, kind, perm, nlink),
{
    let t = Time { secs: 0, nanos: 0 };
    HelloAttr { ino, size, blocks, atime: t, mtime: t, ctime: t, crtime: t, kind, perm, nlink, uid: 501, gid: 20, rdev: 0, flags: 0 }
}

/// The answer to a request for attributes, kept for one second.
pub open spec fn attr_reply(attr: HelloAttr) -> AttrReply {
    AttrReply { ttl: one_second(), attr }
}

/// The answer to a lookup, kept for one second, of generation 0.
pub open spec fn entry_reply(attr: HelloAttr) -> EntryReply {
    EntryReply { ttl: one_second(), attr, generation: 0 }
}

/// The `Icon\r` file as a lookup finds it.
pub open spec fn icon_lookup_attr() -> HelloAttr {
    attr_spec(10, 0, 1, FileKind::RegularFile, 0o644, 1)
}

/// The `Icon\r` file's attributes.
pub open spec fn icon_attr() -> HelloAttr {
    attr_spec(10, 13, 1, FileKind::RegularFile, 0o644, 1)
}

/// The attributes of the folder numbered `ino`.
pub open spec fn folder_attr(ino: u64) -> HelloAttr {
    attr_spec(ino, 0, 0, FileKind::Directory, 0o755, 1)
}

/// The index of the first organization whose login is `name`, if any.
pub open spec fn org_index(orgs: Seq<Organization>, name: Seq<char>) -> Option<int> {
    if exists|i: int| 0 <= i < orgs.len() && #[trigger] orgs[i].login@ == name {
        Some(choose|i: int| 0 <= i < orgs.len() && #[trigger] orgs[i].login@ == name
            && forall|j: int| 0 <= j < i ==> #[trigger] orgs[j].login@ != name)
    } else {
        None
    }
}

/// What looking up `name` in folder `parent` finds: `Icon\r` anywhere, and
/// in the top folder (number 1) the folder of the organization of that
/// login, numbered two more than its index.
pub open spec fn lookup_spec(parent: u64, name: Seq<char>, orgs: Seq<Organization>) -> Option<EntryReply> {
    if name == "Icon\r"@ {
        Some(entry_reply(icon_lookup_attr()))
    } else if parent == 1 {
        match org_index(orgs, name) {
            Some(i) => Some(entry_reply(folder_attr((i + 2) as u64))),
            None => None,
        }
    } else {
        None
    }
}

/// Looks up `name` in folder `parent`.
pub fn lookup(parent: u64, name: &str, orgs: &Vec<Organization>) -> (res: Option<EntryReply>)
    requires
        orgs@.len() + 2 <= u64::MAX,
    ensures
        res == lookup_spec(parent, name@, orgs@),
{
    if same_text(name, "Icon\r") {
        let attr = make_attr(10, 0, 1, FileKind::RegularFile, 0o644, 1);
        return Some(EntryReply { ttl: Time { secs: 1, nanos: 0 }, attr, generation: 0 });
    }
    if parent == 1 {
        let mut i: usize = 0;
        while i < orgs.len()
            invariant
                orgs@.len() + 2 <= u64::MAX,
                parent == 1,
                name@ != "Icon\r"@,
                i <= orgs@.len(),
                forall|j: int| 0 <= j < i ==> #[trigger] orgs@[j].login@ != name@,
            decreases orgs@.len() - i,
        {
            if same_text(orgs[i].login.as_str(), name) {
                let ghost k = i as int;
                let ghost c = choose|j: int| 0 <= j < orgs@.len() && #[trigger] orgs@[j].login@ == name@
                    && forall|m: int| 0 <= m < j ==> #[trigger] orgs@[m].login@ != name@;
                assert(0 <= k < orgs@.len() && orgs@[k].login@ == name@
                    && forall|m: int| 0 <= m < k ==> #[trigger] orgs@[m].login@ != name@);
                assert(c == k) by {
                    if c < k {
                        assert(orgs@[c].login@ != name@);
                    } else if c > k {
                        assert(orgs@[k].login@ != name@);
                    }
                }
                let ino = (i as u64) + 2;
                assert(ino == (k + 2) as u64);
                assert(org_index(orgs@, name@) == Some(k));
                let attr = make_attr(ino, 0, 0, FileKind::Directory, 0o755, 1);
                return Some(EntryReply { ttl: Time { secs: 1, nanos: 0 }, attr, generation: 0 });
            }
            i += 1;
        }
    }
    None
}

/// The attributes of entry `ino`: the top folder (1), the `Icon\r` file (10)
/// and the organization folders (2 on).
pub open spec fn getattr_spec(ino: u64, orgs: Seq<Organization>) -> Option<AttrReply> {
    if ino == 1 {
        Some(attr_reply(folder_attr(1)))
    } else if ino == 10 {
        Some(attr_reply(icon_attr()))
    } else if ino >= 2 && ino - 2 < orgs.len() {
        Some(attr_reply(folder_attr(ino)))
    } else {
        None
    }
}

/// The attributes of entry `ino`.
pub fn getattr(ino: u64, orgs: &Vec<Organization>) -> (res: Option<AttrReply>)
    ensures
        res == getattr_spec(ino, orgs@),
{
    let n = orgs.len();
    if ino == 1 {
        Some(AttrReply { ttl: Time { secs: 1, nanos: 0 }, attr: make_attr(1, 0, 0, FileKind::Directory, 0o755, 1) })
    } else if ino == 10 {
        Some(AttrReply { ttl: Time { secs: 1, nanos: 0 }, attr: make_attr(10, 13, 1, FileKind::RegularFile, 0o644, 1) })
    } else if ino >= 2 && ((ino - 2) as u128) < (n as u128) {
        Some(AttrReply { ttl: Time { secs: 1, nanos: 0 }, attr: make_attr(ino, 0, 0, FileKind::Directory, 0o755, 1) })
    } else {
        None
    }
}

/// The text of the `Icon\r` file.
pub open spec fn hello_text() -> Seq<u8> {
    seq![0x48u8, 0x65, 0x6c, 0x6c, 0x6f, 0x20, 0x57, 0x6f, 0x72, 0x6c, 0x64, 0x21, 0x0a]
}

/// The data of entry `ino` from `offset` on: the text `Hello World!` and a
/// newline for the `Icon\r` file; no other entry has data.
pub fn read(ino: u64, offset: i64) -> (res: Option<Vec<u8>>)
    requires
        ino == 10 ==> 0 <= offset <= 13,
    ensures
        ino == 10 ==> (res matches Some(v) && v@ == hello_text().skip(offset as int)),
        ino != 10 ==> res is None,
{
    if ino == 10 {
        let text: [u8; 13] = [0x48, 0x65, 0x6c, 0x6c, 0x6f, 0x20, 0x57, 0x6f, 0x72, 0x6c, 0x64, 0x21, 0x0a];
        let start = offset as usize;
        let mut out: Vec<u8> = Vec::new();
        let mut i: usize = start;
        while i < 13
            invariant
                start <= i <= 13,
                start == offset,
                text@ == hello_text(),
                out@ == hello_text().subrange(start as int, i as int),
            decreases 13 - i,
        {
            out.push(text[i]);
            i += 1;
            assert(out@ =~= hello_text().subrange(start as int, i as int));
        }
        assert(hello_text().subrange(start as int, 13) =~= hello_text().skip(offset as int));
        Some(out)
    } else {
        None
    }
}

/// An entry of a folder listing: its number, the cookie of the entry after
/// it, its kind and its name.
#[derive(Debug)]
pub struct HelloEntry {
    pub ino: u64,
    pub next: i64,
    pub kind: FileKind,
    pub name: String,
}

/// The full listing of folder `ino`: `.` and `..`, then each organization in
/// the top folder (1), or the `Icon\r` file in folder 4.
pub open spec fn listing_spec(ino: u64, orgs: Seq<Organization>) -> Option<Seq<(u64, FileKind, Seq<char>)>> {
    if ino == 1 {
        Some(seq![(1u64, FileKind::Directory, "."@), (1u64, FileKind::Directory, ".."@)]
            + Seq::new(orgs.len(), |i: int| ((i + 2) as u64, FileKind::Directory, orgs[i].login@)))
    } else if ino == 4 {
        Some(seq![(4u64, FileKind::Directory, "."@), (4u64, FileKind::Directory, ".."@), (10u64, FileKind::RegularFile, "Icon\r"@)])
    } else {
        None
    }
}

/// The entries of a listing from position `start` on, each with the cookie
/// of the entry after it.
pub open spec fn entries_from(all: Seq<(u64, FileKind, Seq<char>)>, start: int) -> Seq<(u64, i64, FileKind, Seq<char>)> {
    if start >= all.len() {
        Seq::empty()
    } else {
        Seq::new((all.len() - start) as nat, |k: int| (all[start + k].0, (start + k + 1) as i64, all[start + k].1, all[start + k].2))
    }
}

/// The view of a listing.
pub open spec fn entries_view(v: Seq<HelloEntry>) -> Seq<(u64, i64, FileKind, Seq<char>)> {
    v.map_values(|e: HelloEntry| (e.ino, e.next, e.kind, e.name@))
}

/// The entries of folder `ino` after the first `offset` ones.
pub fn readdir(ino: u64, offset: i64, orgs: &Vec<Organization>) -> (res: Option<Vec<HelloEntry>>)
    requires
        orgs@.len() + 3 <= i64::MAX,
    ensures
        match listing_spec(ino, orgs@) {
            None => res is None,
            Some(all) => res matches Some(v) && entries_view(v@) == entries_from(all, (offset as usize) as int),
        },
{
    if ino != 1 && ino != 4 {
        return None;
    }
    let mut all: Vec<(u64, FileKind, String)> = Vec::new();
    all.push((ino, FileKind::Directory, ".".to_string()));
    all.push((ino, FileKind::Directory, "..".to_string()));
    if ino == 1 {
        let mut i: usize = 0;
        while i < orgs.len()
            invariant
                orgs@.len() + 3 <= i64::MAX,
                i <= orgs@.len(),
                all@.len() == i + 2,
                all@[0] == (1u64, FileKind::Directory, all@[0].2) && all@[0].2@ == "."@,
                all@[1] == (1u64, FileKind::Directory, all@[1].2) && all@[1].2@ == ".."@,
                forall|j: int| 2 <= j < i + 2 ==> #[trigger] all@[j] == (j as u64, FileKind::Directory, orgs@[j - 2].login),
            decreases orgs@.len() - i,
        {
            let ghost before = all@;
            all.push(((i as u64) + 2, FileKind::Directory, orgs[i].login.clone()));
            assert forall|j: int| 2 <= j < i + 3 implies #[trigger] all@[j] == (j as u64, FileKind::Directory, orgs@[j - 2].login) by {
                if j < i + 2 {
                    assert(all@[j] == before[j]);
                }
            }
            i += 1;
        }
    } else {
        all.push((10, FileKind::RegularFile, "Icon\r".to_string()));
    }
    let ghost listing = listing_spec(ino, orgs@).unwrap();
    assert(all@.map_values(|e: (u64, FileKind, String)| (e.0, e.1, e.2@)) =~= listing);
    let start = offset as usize;
    let mut out: Vec<HelloEntry> = Vec::new();
    let mut k: usize = start;
    let n = all.len();
    while k < n
        invariant
            n == all@.len(),
            n <= i64::MAX,
            start <= k,
            k <= n || k == start,
            all@.map_values(|e: (u64, FileKind, String)| (e.0, e.1, e.2@)) == listing,
            entries_view(out@) == if start >= n { Seq::empty() } else {
                entries_from(listing, start as int).take(k - start)
            },
        decreases n - k,
    {
        let ghost before = out@;
        assert(listing[k as int] == (all@[k as int].0, all@[k as int].1, all@[k as int].2@));
        let e = HelloEntry { ino: all[k].0, next: (k + 1) as i64, kind: all[k].1, name: all[k].2.clone() };
        out.push(e);
        assert(entries_view(out@) =~= entries_view(before).push((e.ino, e.next, e.kind, e.name@)));
        assert(entries_from(listing, start as int)[k - start] == (e.ino, e.next, e.kind, e.name@));
        k += 1;
        assert(entries_view(out@) =~= entries_from(listing, start as int).take(k - start));
    }
    proof {
        if start < n {
            assert(entries_from(listing, start as int).take(n - start) =~= entries_from(listing, start as int));
        }
    }
    Some(out)
}

} // verus!
