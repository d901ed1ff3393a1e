use crate::fs_mt::github_fs::{finder_info_has_icon, finder_info_has_icon_spec, finder_info_hidden, finder_info_hidden_spec};
use crate::github::branches::same_text;
use crate::github::tree_entry::FileKind;
use crate::hello::{attr_reply, attr_spec, entries_from, entries_view, entry_reply, make_attr, AttrReply, EntryReply, HelloAttr, HelloEntry};
use crate::reply::Time;
use crate::text::chars_of;
use vstd::prelude::*;

verus! {

/// The top folder.
pub open spec fn root_attr() -> HelloAttr {
    attr_spec(1, 128, 8, FileKind::Directory, 0o755, 4)
}

/// The `test` folder.
pub open spec fn test_attr() -> HelloAttr {
    attr_spec(2, 96, 8, FileKind::Directory, 0o755, 3)
}

/// The `Icon\r` file in the `test` folder.
pub open spec fn icon_attr() -> HelloAttr {
    attr_spec(3, 13, 8, FileKind::RegularFile, 0o644, 1)
}

/// Looks up a name: `Icon\r` and `test` exist, in any folder.
pub fn lookup(name: &str) -> (res: Option<EntryReply>)
    ensures
        res == if name@ == "Icon\r"@ {
            Some(entry_reply(icon_attr()))
        } else if name@ == "test"@ {
            Some(entry_reply(test_attr()))
        } else {
            None
        },
{
    if same_text(name, "Icon\r") {
        Some(EntryReply { ttl: Time { secs: 1, nanos: 0 }, attr: make_attr(3, 13, 8, FileKind::RegularFile, 0o644, 1), generation: 0 })
    } else if same_text(name, "test") {
        Some(EntryReply { ttl: Time { secs: 1, nanos: 0 }, attr: make_attr(2, 96, 8, FileKind::Directory, 0o755, 3), generation: 0 })
    } else {
        None
    }
}

/// The attributes of entries 1 (the top folder), 2 (`test`) and 3 (`Icon\r`).
pub fn getattr(ino: u64) -> (res: Option<AttrReply>)
    ensures
        res == if ino == 1 {
            Some(attr_reply(root_attr()))
        } else if ino == 2 {
            Some(attr_reply(test_attr()))
        } else if ino == 3 {
            Some(attr_reply(icon_attr()))
        } else {
            None
        },
{
    if ino == 1 {
        Some(AttrReply { ttl: Time { secs: 1, nanos: 0 }, attr: make_attr(1, 128, 8, FileKind::Directory, 0o755, 4) })
    } else if ino == 2 {
        Some(AttrReply { ttl: Time { secs: 1, nanos: 0 }, attr: make_attr(2, 96, 8, FileKind::Directory, 0o755, 3) })
    } else if ino == 3 {
        Some(AttrReply { ttl: Time { secs: 1, nanos: 0 }, attr: make_attr(3, 13, 8, FileKind::RegularFile, 0o644, 1) })
    } else {
        None
    }
}

/// The listing of folder `ino`: the top folder holds `test`, which holds `Icon\r`.
pub open spec fn listing_spec(ino: u64) -> Option<Seq<(u64, FileKind, Seq<char>)>> {
    if ino == 1 {
        Some(seq![(1u64, FileKind::Directory, "."@), (1u64, FileKind::Directory, ".."@), (2u64, FileKind::Directory, "test"@)])
    } else if ino == 2 {
        Some(seq![(2u64, FileKind::Directory, "."@), (1u64, FileKind::Directory, ".."@), (3u64, FileKind::RegularFile, "Icon\r"@)])
    } else {
        None
    }
}

/// The entries of folder `ino` after the first `offset` ones.
pub fn readdir(ino: u64, offset: i64) -> (res: Option<Vec<HelloEntry>>)
    ensures
        match listing_spec(ino) {
            None => res is None,
            Some(all) => res matches Some(v) && entries_view(v@) == entries_from(all, (offset as usize) as int),
        },
{
    let all: Vec<(u64, FileKind, String)> = if ino == 1 {
        vec![(1, FileKind::Directory, ".".to_string()), (1, FileKind::Directory, "..".to_string()), (2, FileKind::Directory, "test".to_string())]
    } else if ino == 2 {
        vec![(2, FileKind::Directory, ".".to_string()), (1, FileKind::Directory, "..".to_string()), (3, FileKind::RegularFile, "Icon\r".to_string())]
    } else {
        return None;
    };
    let ghost listing = listing_spec(ino).unwrap();
    assert(all@.map_values(|e: (u64, FileKind, String)| (e.0, e.1, e.2@)) =~= listing);
    let start = offset as usize;
    let mut out: Vec<HelloEntry> = Vec::new();
    let mut k: usize = start;
    let n = all.len();
    while k < n
        invariant
            n == all@.len(),
            n == 3,
            start <= k,
            k <= n || k == start,
            all@.map_values(|e: (u64, FileKind, String)| (e.0, e.1, e.2@)) == listing,
            entries_view(out@) == if start >= n { Seq::empty() } else {
                entries_from(listing, start as int).take(k - start)
            },
        decreases n - k,
    {
        let ghost before = out@;
        assert(listing[k as int] == (all@[k as int].0, all@[k as int].1, all@[k as int].2@));
        let e = HelloEntry { ino: all[k].0, next: (k + 1) as i64, kind: all[k].1, name: all[k].2.clone() };
        out.push(e);
        assert(entries_view(out@) =~= entries_view(before).push((e.ino, e.next, e.kind, e.name@)));
        assert(entries_from(listing, start as int)[k - start] == (e.ino, e.next, e.kind, e.name@));
        k += 1;
        assert(entries_view(out@) =~= entries_from(listing, start as int).take(k - start));
    }
    proof {
        if start < n {
            assert(entries_from(listing, start as int).take(n - start) =~= entries_from(listing, start as int));
        }
    }
    Some(out)
}

/// Where an attribute's data comes from in the `test` folder.
#[derive(Debug)]
pub enum AttrData {
    /// These bytes.
    Bytes(Vec<u8>),
    /// The resource fork of the icon rendered from this page.
    IconFork(String),
    /// The attribute does not exist.
    Missing,
}

/// The data of attribute `name` of entry `ino`: the `test` folder has the
/// custom-icon Finder info; the `Icon\r` file the hidden Finder info, and
/// for any other name the resource fork of an icon.
pub fn getxattr(ino: u64, name: &str) -> (res: AttrData)
    ensures
        ino == 2 && name@ == "com.apple.FinderInfo"@ ==> (res matches AttrData::Bytes(b) && b@ == finder_info_has_icon_spec()),
        ino == 2 && name@ != "com.apple.FinderInfo"@ ==> res is Missing,
        ino == 3 && name@ == "com.apple.FinderInfo"@ ==> (res matches AttrData::Bytes(b) && b@ == finder_info_hidden_spec()),
        ino == 3 && name@ != "com.apple.FinderInfo"@ ==> (res matches AttrData::IconFork(u) && u@ == "https://google.com"@),
        ino != 2 && ino != 3 ==> res is Missing,
{
    let finder = same_text(name, "com.apple.FinderInfo");
    if ino == 2 {
        if finder {
            AttrData::Bytes(finder_info_has_icon())
        } else {
            AttrData::Missing
        }
    } else if ino == 3 {
        if finder {
            AttrData::Bytes(finder_info_hidden())
        } else {
            AttrData::IconFork("https://google.com".to_string())
        }
    } else {
        AttrData::Missing
    }
}

/// The names of the attributes of entry `ino`, each ended by a zero byte.
pub open spec fn attr_names_spec(ino: u64) -> Seq<u8> {
    if ino == 2 {
        "com.apple.FinderInfo\u{0}"@.map_values(|c: char| c as u8)
    } else if ino == 3 {
        "com.apple.FinderInfo\u{0}com.apple.ResourceFork\u{0}"@.map_values(|c: char| c as u8)
    } else {
        Seq::empty()
    }
}

/// The names of the attributes of entry `ino`.
pub fn listxattr(ino: u64) -> (res: Vec<u8>)
    ensures
        res@ == attr_names_spec(ino),
{
    let text = if ino == 2 {
        "com.apple.FinderInfo\u{0}"
    } else if ino == 3 {
        "com.apple.FinderInfo\u{0}com.apple.ResourceFork\u{0}"
    } else {
        ""
    };
    let cs = chars_of(text);
    let mut out: Vec<u8> = Vec::new();
    let mut i: usize = 0;
    while i < cs.len()
        invariant
            i <= cs@.len(),
            out@ == cs@.take(i as int).map_values(|c: char| c as u8),
        decreases cs@.len() - i,
    {
        out.push(cs[i] as u8);
        i += 1;
        assert(out@ =~= cs@.take(i as int).map_values(|c: char| c as u8));
    }
    assert(cs@.take(cs@.len() as int) == cs@);
    proof {
        reveal_strlit("");
    }
    assert(ino != 2 && ino != 3 ==> cs@ =~= Seq::<char>::empty());
    out
}

} // verus!
