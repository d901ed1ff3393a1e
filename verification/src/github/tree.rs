use crate::github::blob::Blob;
use crate::github::tree_entry::TreeEntry;
use crate::github::branches::same_text;
use crate::matching::{regex_escape, regex_escaped, regex_is_match, regex_matches};
use crate::text::{chars_of, string_of};
use vstd::prelude::*;

verus! {

/// A git tree and its entries.
#[derive(Debug)]
pub struct Tree {
    pub sha: String,
    pub entries: Vec<TreeEntry>,
}

/// A recursive tree listing as the GitHub API gives it.
pub struct RootData {
    pub sha: String,
    pub tree: Vec<TreeData>,
}

/// One entry of a tree listing as the GitHub API gives it.
pub struct TreeData {
    pub path: String,
    pub mode: String,
    pub kind: String,
    pub sha: String,
    pub size: Option<i32>,
}

/// The entry type of blobs, `blob`.
pub open spec fn blob_kind() -> Seq<char> {
    seq!['b', 'l', 'o', 'b']
}

/// Every blob entry of a listing carries its size.
pub open spec fn blobs_have_sizes(items: Seq<TreeData>) -> bool {
    forall|i: int| 0 <= i < items.len() && #[trigger] items[i].kind@ == blob_kind() ==> items[i].size is Some
}

/// Holds of the blob entries of a listing.
pub open spec fn is_blob_data() -> spec_fn(TreeData) -> bool {
    |d: TreeData| d.kind@ == blob_kind()
}

/// The blob, with its size and no data yet, of a blob entry of a listing.
pub open spec fn blob_of_data() -> spec_fn(TreeData) -> Blob {
    |d: TreeData| Blob { sha: d.sha, size: d.size->0, data: None }
}

/// The tree entry that stands for an entry of a listing of tree `root_sha`.
pub open spec fn entry_of(root_sha: String, d: TreeData) -> TreeEntry {
    TreeEntry {
        sha: root_sha,
        path: d.path,
        mode: d.mode,
        blob_sha: if d.kind@ == blob_kind() { Some(d.sha) } else { None },
    }
}

/// The pattern of the paths directly in directory `dir` of a tree: `dir`
/// escaped, a `/` unless `dir` is the root, then one component.
pub open spec fn dir_pattern_spec(dir: Seq<char>) -> Seq<char> {
    seq!['^'] + regex_escaped(dir) + (if dir.len() == 0 { Seq::<char>::empty() } else { seq!['/'] })
        + seq!['[', '^', '/', ']', '*', '$']
}

impl Tree {
    /// The entries of tree `data.sha`, in the listing's order, and the blobs
    /// (with sizes but no data yet) of its file entries, in the same order.
    pub fn from_data(data: RootData) -> (res: (Tree, Vec<Blob>))
        requires
            blobs_have_sizes(data.tree@),
        ensures
            res.0.sha == data.sha,
            res.0.entries@ == data.tree@.map_values(|d: TreeData| entry_of(data.sha, d)),
            res.1@ == data.tree@.filter(is_blob_data()).map_values(blob_of_data()),
    {
        let root_sha = data.sha;
        let ghost input = data.tree@;
        let ghost blob_pred = is_blob_data();
        let ghost blob_of = blob_of_data();
        let total = data.tree.len();
        let mut rest = data.tree;
        let mut entries: Vec<TreeEntry> = Vec::new();
        let mut blobs: Vec<Blob> = Vec::new();
        let blob_word = "blob";
        proof {
            reveal_strlit("blob");
        }
        assert(blob_word@ =~= blob_kind());
        let mut n: usize = 0;
        while rest.len() > 0
            invariant
                n + rest@.len() == input.len(),
                total == input.len(),
                rest@ == input.skip(n as int),
                blob_word@ == blob_kind(),
                blobs_have_sizes(input),
                blob_pred == is_blob_data(),
                blob_of == blob_of_data(),
                entries@ == input.take(n as int).map_values(|d: TreeData| entry_of(root_sha, d)),
                blobs@ == input.take(n as int).filter(blob_pred).map_values(blob_of),
            decreases rest@.len(),
        {
            let item = rest.remove(0);
            assert(item == input[n as int]);
            let is_blob = same_text(item.kind.as_str(), blob_word);
            let ghost before_blobs = blobs@;
            let blob_sha = if is_blob {
                assert(input[n as int].kind@ == blob_kind());
                let size = match item.size {
                    Some(s) => s,
                    None => 0,
                };
                blobs.push(Blob { sha: item.sha.clone(), size, data: None });
                Some(item.sha)
            } else {
                None
            };
            let ghost entry = entry_of(root_sha, item);
            entries.push(TreeEntry {
                sha: root_sha.clone(),
                path: item.path,
                mode: item.mode,
                blob_sha,
            });
            proof {
                let t = input.take(n as int);
                assert(input.take(n + 1) == t.push(item));
                assert(entries@ =~= input.take(n + 1).map_values(|d: TreeData| entry_of(root_sha, d)));
                t.lemma_filter_push(item, blob_pred);
                if is_blob {
                    assert(blobs@ =~= before_blobs.push(blob_of(item)));
                    assert(t.filter(blob_pred).push(item).map_values(blob_of) =~= t.filter(blob_pred).map_values(blob_of).push(blob_of(item)));
                }
            }
            n += 1;
            assert(rest@ =~= input.skip(n as int));
        }
        assert(input.take(n as int) == input);
        (Tree { sha: root_sha, entries }, blobs)
    }

    /// The tree that the store holds, named after its first entry's tree, or
    /// `None` when the store holds no entry and the tree must be fetched.
    pub fn from_stored(entries: Vec<TreeEntry>) -> (res: Option<Tree>)
        ensures
            entries@.len() == 0 <==> res is None,
            res matches Some(t) ==> t.entries@ == entries@ && t.sha == entries@[0].sha,
    {
        if entries.len() == 0 {
            None
        } else {
            let sha = entries[0].sha.clone();
            Some(Tree { entries, sha })
        }
    }

    /// The pattern that the paths directly in directory `dir` match.
    pub fn dir_pattern(dir: &str) -> (res: String)
        ensures
            res@ == dir_pattern_spec(dir@),
    {
        let mut re: Vec<char> = vec!['^'];
        let escaped = regex_escape(dir);
        let mut esc = chars_of(escaped.as_str());
        re.append(&mut esc);
        let d = chars_of(dir);
        if d.len() != 0 {
            re.push('/');
        }
        let mut tail = vec!['[', '^', '/', ']', '*', '$'];
        re.append(&mut tail);
        assert(re@ =~= dir_pattern_spec(dir@));
        string_of(re.as_slice())
    }
}


/// Holds of the entries whose paths stand directly in directory `dir`: those
/// that match `dir_pattern_spec(dir)`.
pub open spec fn in_dir(dir: Seq<char>) -> spec_fn(TreeEntry) -> bool {
    |e: TreeEntry| regex_matches(dir_pattern_spec(dir), e.path@)
}

/// The position of the first entry whose path is `path`.
pub open spec fn first_at(entries: Seq<TreeEntry>, path: Seq<char>) -> Option<int> {
    if exists|i: int| 0 <= i < entries.len() && #[trigger] entries[i].path@ == path {
        Some(choose|i: int| 0 <= i < entries.len() && #[trigger] entries[i].path@ == path
            && forall|j: int| 0 <= j < i ==> #[trigger] entries[j].path@ != path)
    } else {
        None
    }
}

impl Tree {
    /// The tree cut down to the entries that stand directly in directory
    /// `dir` (the root when `dir` is empty), in order.
    pub fn dir_entries(self, dir: &str) -> (res: Tree)
        ensures
            res.sha == self.sha,
            res.entries@ == self.entries@.filter(in_dir(dir@)),
    {
        let pattern = Tree::dir_pattern(dir);
        let ghost pred = in_dir(dir@);
        let ghost input = self.entries@;
        let sha = self.sha;
        let total = self.entries.len();
        let mut rest = self.entries;
        let mut kept: Vec<TreeEntry> = Vec::new();
        let mut n: usize = 0;
        while rest.len() > 0
            invariant
                n + rest@.len() == input.len(),
                total == input.len(),
                rest@ == input.skip(n as int),
                pattern@ == dir_pattern_spec(dir@),
                pred == in_dir(dir@),
                kept@ == input.take(n as int).filter(pred),
            decreases rest@.len(),
        {
            let entry = rest.remove(0);
            assert(entry == input[n as int]);
            assert(input.take(n + 1) == input.take(n as int).push(entry));
            proof {
                input.take(n as int).lemma_filter_push(entry, pred);
            }
            if regex_is_match(pattern.as_str(), entry.path.as_str()) {
                kept.push(entry);
            }
            n += 1;
            assert(rest@ =~= input.skip(n as int));
        }
        assert(input.take(n as int) == input);
        Tree { sha, entries: kept }
    }

    /// The first entry whose path is `path`, if any.
    pub fn entry_at(self, path: &str) -> (res: Option<TreeEntry>)
        ensures
            match first_at(self.entries@, path@) {
                Some(i) => res == Some(self.entries@[i]),
                None => res is None,
            },
    {
        let ghost input = self.entries@;
        let mut entries = self.entries;
        let mut i: usize = 0;
        while i < entries.len()
            invariant
                entries@ == input,
                input == self.entries@,
                i <= input.len(),
                forall|j: int| 0 <= j < i ==> #[trigger] input[j].path@ != path@,
            decreases input.len() - i,
        {
            if same_text(entries[i].path.as_str(), path) {
                let ghost k = i as int;
                let found = entries.remove(i);
                proof {
                    assert(0 <= k < input.len() && input[k].path@ == path@
                        && forall|j: int| 0 <= j < k ==> #[trigger] input[j].path@ != path@);
                    let c = choose|c: int| 0 <= c < input.len() && #[trigger] input[c].path@ == path@
                        && forall|j: int| 0 <= j < c ==> #[trigger] input[j].path@ != path@;
                    if c < k {
                        assert(input[c].path@ != path@);
                    }
                    if k < c {
                        assert(input[k].path@ != path@);
                    }
                    assert(first_at(input, path@) == Some(k));
                }
                return Some(found);
            }
            i += 1;
        }
        None
    }
}

/// Holds of the entries that are files.
pub open spec fn is_file_entry() -> spec_fn(TreeEntry) -> bool {
    |e: TreeEntry| e.blob_sha is Some
}

/// Each file entry of a listed tree has the blob of its listing entry, and
/// each blob belongs to a file entry: the blobs' hashes, in order, are the
/// file entries' blob hashes.
pub proof fn lemma_blobs_are_file_entries(root_sha: String, items: Seq<TreeData>)
    ensures
        items.map_values(|d: TreeData| entry_of(root_sha, d)).filter(is_file_entry()).map_values(|e: TreeEntry| e.blob_sha->0)
            == items.filter(is_blob_data()).map_values(blob_of_data()).map_values(|b: Blob| b.sha),
    decreases items.len(),
{
    let f = |d: TreeData| entry_of(root_sha, d);
    if items.len() == 0 {
        assert(items.map_values(f) =~= Seq::<TreeEntry>::empty());
        reveal(Seq::filter);
        assert(Seq::<TreeEntry>::empty().filter(is_file_entry()) =~= Seq::<TreeEntry>::empty());
        assert(items.filter(is_blob_data()) =~= Seq::<TreeData>::empty());
    } else {
        let init = items.drop_last();
        let x = items.last();
        lemma_blobs_are_file_entries(root_sha, init);
        assert(items == init.push(x));
        assert(items.map_values(f) =~= init.map_values(f).push(f(x)));
        init.map_values(f).lemma_filter_push(f(x), is_file_entry());
        init.lemma_filter_push(x, is_blob_data());
        let a = init.map_values(f).filter(is_file_entry());
        let b = init.filter(is_blob_data());
        if x.kind@ == blob_kind() {
            assert(a.push(f(x)).map_values(|e: TreeEntry| e.blob_sha->0) =~= a.map_values(|e: TreeEntry| e.blob_sha->0).push(x.sha));
            assert(b.push(x).map_values(blob_of_data()).map_values(|bl: Blob| bl.sha)
                =~= b.map_values(blob_of_data()).map_values(|bl: Blob| bl.sha).push(x.sha));
        }
    }
}

} // verus!
