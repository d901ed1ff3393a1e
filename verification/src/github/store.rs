use crate::github::blob::Blob;
use crate::github::branches::{same_text, Branch};
use crate::github::repo::Repo;
use crate::github::tree_entry::TreeEntry;
use crate::text::chars_of;
use vstd::prelude::*;

verus! {

/// The code of a character with ASCII letters made lowercase.
pub open spec fn lower_code(c: char) -> u32 {
    if 65 <= (c as u32) && (c as u32) <= 90 {
        ((c as u32) + 32) as u32
    } else {
        c as u32
    }
}

/// Whether `name` matches the SQL `LIKE` pattern `pattern` as SQLite reads
/// it by default, which is how the store finds repositories and branches:
/// `%` matches any run of characters, `_` any one character, and every other
/// character itself with ASCII case ignored; there is no escape character.
pub open spec fn like_spec(name: Seq<char>, pattern: Seq<char>) -> bool
    decreases name.len() + pattern.len(),
{
    if pattern.len() == 0 {
        name.len() == 0
    } else if pattern[0] == '%' {
        like_spec(name, pattern.skip(1)) || (name.len() > 0 && like_spec(name.skip(1), pattern))
    } else if pattern[0] == '_' {
        name.len() > 0 && like_spec(name.skip(1), pattern.skip(1))
    } else {
        name.len() > 0 && lower_code(name[0]) == lower_code(pattern[0]) && like_spec(name.skip(1), pattern.skip(1))
    }
}

fn lower_code_of(c: char) -> (res: u32)
    ensures
        res == lower_code(c),
{
    let x = c as u32;
    if 65 <= x && x <= 90 {
        x + 32
    } else {
        x
    }
}

fn like_at(name: &Vec<char>, pattern: &Vec<char>, i: usize, j: usize) -> (res: bool)
    requires
        i <= name@.len(),
        j <= pattern@.len(),
    ensures
        res == like_spec(name@.skip(i as int), pattern@.skip(j as int)),
    decreases (name@.len() - i) + (pattern@.len() - j),
{
    let ghost n = name@.skip(i as int);
    let ghost p = pattern@.skip(j as int);
    if i < name.len() {
        assert(n.skip(1) =~= name@.skip(i + 1));
        assert(n[0] == name@[i as int]);
    }
    if j == pattern.len() {
        assert(p.len() == 0);
        return i == name.len();
    }
    assert(p.skip(1) =~= pattern@.skip(j + 1));
    assert(p[0] == pattern@[j as int]);
    let c = pattern[j];
    if c == '%' {
        like_at(name, pattern, i, j + 1) || (i < name.len() && like_at(name, pattern, i + 1, j))
    } else if c == '_' {
        i < name.len() && like_at(name, pattern, i + 1, j + 1)
    } else {
        i < name.len() && lower_code_of(name[i]) == lower_code_of(c) && like_at(name, pattern, i + 1, j + 1)
    }
}

/// Whether `name` matches the `LIKE` pattern `pattern`.
pub fn like_match(name: &str, pattern: &str) -> (res: bool)
    ensures
        res == like_spec(name@, pattern@),
{
    let n = chars_of(name);
    let p = chars_of(pattern);
    assert(n@.skip(0) == n@);
    assert(p@.skip(0) == p@);
    like_at(&n, &p, 0, 0)
}

/// Every name matches itself as a pattern.
pub proof fn lemma_like_refl(s: Seq<char>)
    ensures
        like_spec(s, s),
    decreases s.len(),
{
    if s.len() > 0 {
        lemma_like_refl(s.skip(1));
        if s[0] == '%' {
            assert(like_spec(s.skip(1), s));
        }
    }
}

/// The position of the first element that `p` holds of.
pub open spec fn first_where<A>(s: Seq<A>, p: spec_fn(A) -> bool) -> Option<int>
    decreases s.len(),
{
    if s.len() == 0 {
        None
    } else {
        match first_where(s.drop_last(), p) {
            Some(i) => Some(i),
            None => if p(s.last()) {
                Some(s.len() - 1)
            } else {
                None
            },
        }
    }
}

/// What `first_where` finds: an element that `p` holds of, with none before
/// it; or, when it finds none, no such element.
pub proof fn lemma_first_where<A>(s: Seq<A>, p: spec_fn(A) -> bool)
    ensures
        match first_where(s, p) {
            Some(i) => 0 <= i < s.len() && p(s[i]) && forall|j: int| 0 <= j < i ==> !#[trigger] p(s[j]),
            None => forall|j: int| 0 <= j < s.len() ==> !#[trigger] p(s[j]),
        },
    decreases s.len(),
{
    if s.len() > 0 {
        lemma_first_where(s.drop_last(), p);
        assert forall|j: int| 0 <= j < s.len() - 1 implies #[trigger] s[j] == s.drop_last()[j] by {}
    }
}

proof fn lemma_first_where_at<A>(s: Seq<A>, p: spec_fn(A) -> bool, k: int)
    requires
        0 <= k < s.len(),
        p(s[k]),
        forall|j: int| 0 <= j < k ==> !#[trigger] p(s[j]),
    ensures
        first_where(s, p) == Some(k),
{
    lemma_first_where(s, p);
    match first_where(s, p) {
        Some(i) => {
            if i < k {
                assert(!p(s[i]));
            }
            if k < i {
                assert(!p(s[k]));
            }
        },
        None => {
            assert(!p(s[k]));
        },
    }
}

proof fn lemma_first_where_none<A>(s: Seq<A>, p: spec_fn(A) -> bool)
    requires
        forall|j: int| 0 <= j < s.len() ==> !#[trigger] p(s[j]),
    ensures
        first_where(s, p) is None,
{
    lemma_first_where(s, p);
    if let Some(i) = first_where(s, p) {
        assert(!p(s[i]));
    }
}

proof fn lemma_filter_all<A>(s: Seq<A>, p: spec_fn(A) -> bool)
    requires
        forall|j: int| 0 <= j < s.len() ==> #[trigger] p(s[j]),
    ensures
        s.filter(p) == s,
    decreases s.len(),
{
    reveal(Seq::filter);
    if s.len() > 0 {
        lemma_filter_all(s.drop_last(), p);
        assert(s.drop_last().push(s.last()) == s);
    }
}

proof fn lemma_filter_none<A>(s: Seq<A>, p: spec_fn(A) -> bool)
    requires
        forall|j: int| 0 <= j < s.len() ==> !#[trigger] p(s[j]),
    ensures
        s.filter(p) == Seq::<A>::empty(),
    decreases s.len(),
{
    reveal(Seq::filter);
    if s.len() > 0 {
        lemma_filter_none(s.drop_last(), p);
    }
}

/// The repositories whose owner matches the pattern `owner`.
pub open spec fn owner_is(owner: Seq<char>) -> spec_fn(Repo) -> bool {
    |r: Repo| like_spec(r.owner@, owner)
}

/// The repositories whose owner and name match the patterns `owner` and `name`.
pub open spec fn repo_is(owner: Seq<char>, name: Seq<char>) -> spec_fn(Repo) -> bool {
    |r: Repo| like_spec(r.owner@, owner) && like_spec(r.name@, name)
}

/// The branches whose owner and repository match the patterns `owner` and `repo`.
pub open spec fn branch_of(owner: Seq<char>, repo: Seq<char>) -> spec_fn(Branch) -> bool {
    |b: Branch| like_spec(b.owner@, owner) && like_spec(b.repo@, repo)
}

/// The branches that the patterns `owner` and `repo` do not both match.
pub open spec fn branch_not_of(owner: Seq<char>, repo: Seq<char>) -> spec_fn(Branch) -> bool {
    |b: Branch| !(like_spec(b.owner@, owner) && like_spec(b.repo@, repo))
}

/// The repository whose owner and name are exactly `owner` and `name`: the
/// store's key, under which a written repository replaces a stored one.
pub open spec fn repo_key(owner: Seq<char>, name: Seq<char>) -> spec_fn(Repo) -> bool {
    |r: Repo| r.owner@ == owner && r.name@ == name
}

/// The tree `sha`.
pub open spec fn tree_is(sha: Seq<char>) -> spec_fn((String, Vec<TreeEntry>)) -> bool {
    |t: (String, Vec<TreeEntry>)| t.0@ == sha
}

/// The blob `sha`.
pub open spec fn blob_is(sha: Seq<char>) -> spec_fn(Blob) -> bool {
    |b: Blob| b.sha@ == sha
}

/// A blob as plain values.
pub open spec fn blob_view(b: Blob) -> (Seq<char>, i32, Option<Seq<u8>>) {
    (b.sha@, b.size, match b.data { Some(d) => Some(d@), None => None })
}

/// `s` with the first element that `p` holds of replaced by `x`, or with
/// `x` added at the end when there is none.
pub open spec fn put_spec<A>(s: Seq<A>, p: spec_fn(A) -> bool, x: A) -> Seq<A> {
    match first_where(s, p) {
        Some(i) => s.update(i, x),
        None => s.push(x),
    }
}

/// Writing `x` where `p` finds its place, when `p` holds of `x`, makes `x`
/// the first element that `p` holds of: a read gives back what was written.
pub proof fn lemma_read_after_put<A>(s: Seq<A>, p: spec_fn(A) -> bool, x: A)
    requires
        p(x),
    ensures
        first_where(put_spec(s, p, x), p) matches Some(k) && put_spec(s, p, x)[k] == x,
{
    let t = put_spec(s, p, x);
    lemma_first_where(s, p);
    match first_where(s, p) {
        Some(i) => {
            assert(t == s.update(i, x));
            assert forall|j: int| 0 <= j < i implies !#[trigger] p(t[j]) by {
                assert(t[j] == s[j]);
            }
            lemma_first_where_at(t, p, i);
        },
        None => {
            assert(t == s.push(x));
            assert forall|j: int| 0 <= j < s.len() implies !#[trigger] p(t[j]) by {
                assert(t[j] == s[j]);
            }
            lemma_first_where_at(t, p, s.len() as int);
        },
    }
}

/// A repository read back after it was written is the one written, when
/// every stored repository that its owner and name (as patterns) match has
/// its owner and name.
pub proof fn lemma_repo_read_after_write(repos: Seq<Repo>, r: Repo)
    requires
        forall|j: int| 0 <= j < repos.len() && #[trigger] repo_is(r.owner@, r.name@)(repos[j])
            ==> repo_key(r.owner@, r.name@)(repos[j]),
    ensures
        ({
            let after = put_spec(repos, repo_key(r.owner@, r.name@), r);
            first_where(after, repo_is(r.owner@, r.name@)) matches Some(k) && after[k] == r
        }),
{
    let like = repo_is(r.owner@, r.name@);
    let key = repo_key(r.owner@, r.name@);
    let after = put_spec(repos, key, r);
    lemma_like_refl(r.owner@);
    lemma_like_refl(r.name@);
    assert(like(r));
    lemma_first_where(repos, key);
    match first_where(repos, key) {
        Some(i) => {
            assert(after == repos.update(i, r));
            assert forall|j: int| 0 <= j < i implies !#[trigger] like(after[j]) by {
                assert(after[j] == repos[j]);
                assert(!key(repos[j]));
            }
            lemma_first_where_at(after, like, i);
        },
        None => {
            assert(after == repos.push(r));
            assert forall|j: int| 0 <= j < repos.len() implies !#[trigger] like(after[j]) by {
                assert(after[j] == repos[j]);
                assert(!key(repos[j]));
            }
            lemma_first_where_at(after, like, repos.len() as int);
        },
    }
}

/// A tree read back after its entries were written has those entries.
pub proof fn lemma_tree_read_after_write(trees: Seq<(String, Vec<TreeEntry>)>, sha: String, entries: Vec<TreeEntry>)
    ensures
        ({
            let after = put_spec(trees, tree_is(sha@), (sha, entries));
            first_where(after, tree_is(sha@)) matches Some(k) && after[k].1@ == entries@
        }),
{
    lemma_read_after_put(trees, tree_is(sha@), (sha, entries));
}

/// A blob read back after it was written (not keeping a stored one) is the
/// one written.
pub proof fn lemma_blob_read_after_write(blobs: Seq<Blob>, b: Blob)
    ensures
        ({
            let after = put_spec(blobs, blob_is(b.sha@), b);
            first_where(after, blob_is(b.sha@)) matches Some(k) && blob_view(after[k]) == blob_view(b)
        }),
{
    lemma_read_after_put(blobs, blob_is(b.sha@), b);
}

/// After the branches of `owner/repo` are put in place of those stored, the
/// branches of `owner/repo` are the new ones, when they all belong to it;
/// those of other repositories are kept.
pub proof fn lemma_branches_after_put(old: Seq<Branch>, new: Seq<Branch>, owner: Seq<char>, repo: Seq<char>)
    requires
        forall|j: int| 0 <= j < new.len() ==> #[trigger] branch_of(owner, repo)(new[j]),
    ensures
        (old.filter(branch_not_of(owner, repo)) + new).filter(branch_of(owner, repo)) == new,
        (old.filter(branch_not_of(owner, repo)) + new).filter(branch_not_of(owner, repo)) == old.filter(branch_not_of(owner, repo)),
{
    let kept = old.filter(branch_not_of(owner, repo));
    let p = branch_of(owner, repo);
    let q = branch_not_of(owner, repo);
    Seq::filter_distributes_over_add(kept, new, p);
    Seq::filter_distributes_over_add(kept, new, q);
    assert forall|j: int| 0 <= j < kept.len() implies !#[trigger] p(kept[j]) by {
        old.lemma_filter_pred(q, j);
    }
    lemma_filter_none(kept, p);
    lemma_filter_all(new, p);
    assert forall|j: int| 0 <= j < kept.len() implies #[trigger] q(kept[j]) by {
        old.lemma_filter_pred(q, j);
    }
    lemma_filter_all(kept, q);
    assert forall|j: int| 0 <= j < new.len() implies !#[trigger] q(new[j]) by {
        assert(p(new[j]));
    }
    lemma_filter_none(new, q);
    assert(Seq::<Branch>::empty() + new == new);
    assert(kept + Seq::<Branch>::empty() == kept);
}

fn copy_text(o: &Option<String>) -> (res: Option<String>)
    ensures
        res == *o,
{
    match o {
        Some(s) => Some(s.clone()),
        None => None,
    }
}

fn copy_repo(r: &Repo) -> (res: Repo)
    ensures
        res == *r,
{
    Repo {
        owner: r.owner.clone(),
        name: r.name.clone(),
        default_branch: r.default_branch.clone(),
        description: copy_text(&r.description),
        homepage: copy_text(&r.homepage),
        private: r.private,
        fork: r.fork,
    }
}

fn copy_entry(e: &TreeEntry) -> (res: TreeEntry)
    ensures
        res == *e,
{
    TreeEntry { sha: e.sha.clone(), path: e.path.clone(), mode: e.mode.clone(), blob_sha: copy_text(&e.blob_sha) }
}

fn copy_entries(v: &Vec<TreeEntry>) -> (res: Vec<TreeEntry>)
    ensures
        res@ == v@,
{
    let mut out: Vec<TreeEntry> = Vec::new();
    let mut i: usize = 0;
    while i < v.len()
        invariant
            i <= v@.len(),
            out@ == v@.take(i as int),
        decreases v@.len() - i,
    {
        out.push(copy_entry(&v[i]));
        i += 1;
        assert(out@ =~= v@.take(i as int));
    }
    assert(v@.take(v@.len() as int) == v@);
    out
}

fn copy_bytes(v: &Vec<u8>) -> (res: Vec<u8>)
    ensures
        res@ == v@,
{
    let mut out: Vec<u8> = Vec::new();
    let mut i: usize = 0;
    while i < v.len()
        invariant
            i <= v@.len(),
            out@ == v@.take(i as int),
        decreases v@.len() - i,
    {
        out.push(v[i]);
        i += 1;
        assert(out@ =~= v@.take(i as int));
    }
    assert(v@.take(v@.len() as int) == v@);
    out
}

fn copy_blob(b: &Blob) -> (res: Blob)
    ensures
        blob_view(res) == blob_view(*b),
{
    let data = match &b.data {
        Some(d) => Some(copy_bytes(d)),
        None => None,
    };
    Blob { sha: b.sha.clone(), size: b.size, data }
}

/// What has been fetched from GitHub: repositories, branches, trees by
/// hash and blobs by hash. Repositories and branches are looked up with
/// their owner and name read as `LIKE` patterns (see `like_spec`), and
/// written over the entry of exactly their owner and name.
#[derive(Debug)]
pub struct Store {
    pub repos: Vec<Repo>,
    pub branches: Vec<Branch>,
    pub trees: Vec<(String, Vec<TreeEntry>)>,
    pub blobs: Vec<Blob>,
}

impl Store {
    /// An empty store.
    pub fn new() -> (res: Store)
        ensures
            res.repos@.len() == 0,
            res.branches@.len() == 0,
            res.trees@.len() == 0,
            res.blobs@.len() == 0,
    {
        Store { repos: Vec::new(), branches: Vec::new(), trees: Vec::new(), blobs: Vec::new() }
    }

    /// The stored repositories of `owner`, in the order they were stored.
    pub fn repos_of(&self, owner: &str) -> (res: Vec<Repo>)
        ensures
            res@ == self.repos@.filter(owner_is(owner@)),
    {
        let ghost p = owner_is(owner@);
        let mut out: Vec<Repo> = Vec::new();
        let mut i: usize = 0;
        while i < self.repos.len()
            invariant
                i <= self.repos@.len(),
                p == owner_is(owner@),
                out@ == self.repos@.take(i as int).filter(p),
            decreases self.repos@.len() - i,
        {
            let r = &self.repos[i];
            assert(self.repos@.take(i + 1) == self.repos@.take(i as int).push(*r));
            proof {
                self.repos@.take(i as int).lemma_filter_push(*r, p);
            }
            if like_match(r.owner.as_str(), owner) {
                out.push(copy_repo(r));
            }
            i += 1;
        }
        assert(self.repos@.take(self.repos@.len() as int) == self.repos@);
        out
    }

    /// The stored repository `owner/name`, if any.
    pub fn repo(&self, owner: &str, name: &str) -> (res: Option<Repo>)
        ensures
            match first_where(self.repos@, repo_is(owner@, name@)) {
                Some(i) => res == Some(self.repos@[i]),
                None => res is None,
            },
    {
        let ghost p = repo_is(owner@, name@);
        let mut i: usize = 0;
        while i < self.repos.len()
            invariant
                i <= self.repos@.len(),
                p == repo_is(owner@, name@),
                forall|j: int| 0 <= j < i ==> !#[trigger] p(self.repos@[j]),
            decreases self.repos@.len() - i,
        {
            let r = &self.repos[i];
            if like_match(r.owner.as_str(), owner) && like_match(r.name.as_str(), name) {
                proof {
                    lemma_first_where_at(self.repos@, p, i as int);
                }
                return Some(copy_repo(r));
            }
            i += 1;
        }
        proof {
            lemma_first_where_none(self.repos@, p);
        }
        None
    }

    /// Writes a repository over the stored one of exactly its owner and name,
    /// or adds it.
    pub fn put_repo(&mut self, repo: Repo)
        ensures
            final(self).repos@ == put_spec(old(self).repos@, repo_key(repo.owner@, repo.name@), repo),
            final(self).branches@ == old(self).branches@,
            final(self).trees@ == old(self).trees@,
            final(self).blobs@ == old(self).blobs@,
    {
        let ghost p = repo_key(repo.owner@, repo.name@);
        let mut i: usize = 0;
        while i < self.repos.len()
            invariant
                i <= self.repos@.len(),
                self.repos@ == old(self).repos@,
                self.branches@ == old(self).branches@,
                self.trees@ == old(self).trees@,
                self.blobs@ == old(self).blobs@,
                p == repo_key(repo.owner@, repo.name@),
                forall|j: int| 0 <= j < i ==> !#[trigger] p(self.repos@[j]),
            decreases self.repos@.len() - i,
        {
            if same_text(self.repos[i].owner.as_str(), repo.owner.as_str())
                && same_text(self.repos[i].name.as_str(), repo.name.as_str()) {
                proof {
                    lemma_first_where_at(self.repos@, p, i as int);
                }
                self.repos.set(i, repo);
                return;
            }
            i += 1;
        }
        proof {
            lemma_first_where_none(self.repos@, p);
        }
        self.repos.push(repo);
    }

    /// The stored branches of `owner/repo`, in the order they were stored.
    pub fn branches_of(&self, owner: &str, repo: &str) -> (res: Vec<Branch>)
        ensures
            res@ == self.branches@.filter(branch_of(owner@, repo@)),
    {
        let ghost p = branch_of(owner@, repo@);
        let mut out: Vec<Branch> = Vec::new();
        let mut i: usize = 0;
        while i < self.branches.len()
            invariant
                i <= self.branches@.len(),
                p == branch_of(owner@, repo@),
                out@ == self.branches@.take(i as int).filter(p),
            decreases self.branches@.len() - i,
        {
            let b = &self.branches[i];
            assert(self.branches@.take(i + 1) == self.branches@.take(i as int).push(*b));
            proof {
                self.branches@.take(i as int).lemma_filter_push(*b, p);
            }
            if like_match(b.owner.as_str(), owner) && like_match(b.repo.as_str(), repo) {
                out.push(b.clone());
            }
            i += 1;
        }
        assert(self.branches@.take(self.branches@.len() as int) == self.branches@);
        out
    }

    /// The branch that `owner/repo`'s files are served from when branches of
    /// it are stored: the first stored one; `None` when none is stored and
    /// the branches must be fetched (the default branch is then chosen by
    /// name with `Branches::default_branch`).
    pub fn stored_default_branch(&self, owner: &str, repo: &str) -> (res: Option<Branch>)
        ensures
            match first_where(self.branches@, branch_of(owner@, repo@)) {
                Some(i) => res == Some(self.branches@[i]),
                None => res is None,
            },
    {
        let ghost p = branch_of(owner@, repo@);
        let mut i: usize = 0;
        while i < self.branches.len()
            invariant
                i <= self.branches@.len(),
                p == branch_of(owner@, repo@),
                forall|j: int| 0 <= j < i ==> !#[trigger] p(self.branches@[j]),
            decreases self.branches@.len() - i,
        {
            let b = &self.branches[i];
            if like_match(b.owner.as_str(), owner) && like_match(b.repo.as_str(), repo) {
                proof {
                    lemma_first_where_at(self.branches@, p, i as int);
                }
                return Some(b.clone());
            }
            i += 1;
        }
        proof {
            lemma_first_where_none(self.branches@, p);
        }
        None
    }

    /// Puts `branches` in place of the stored branches of `owner/repo`.
    pub fn put_branches(&mut self, owner: &str, repo: &str, branches: Vec<Branch>)
        ensures
            final(self).branches@ == old(self).branches@.filter(branch_not_of(owner@, repo@)) + branches@,
            final(self).repos@ == old(self).repos@,
            final(self).trees@ == old(self).trees@,
            final(self).blobs@ == old(self).blobs@,
    {
        let ghost q = branch_not_of(owner@, repo@);
        let ghost input = self.branches@;
        let mut kept: Vec<Branch> = Vec::new();
        let mut i: usize = 0;
        while i < self.branches.len()
            invariant
                i <= self.branches@.len(),
                self.branches@ == input,
                input == old(self).branches@,
                q == branch_not_of(owner@, repo@),
                kept@ == input.take(i as int).filter(q),
            decreases self.branches@.len() - i,
        {
            let b = &self.branches[i];
            assert(input.take(i + 1) == input.take(i as int).push(*b));
            proof {
                input.take(i as int).lemma_filter_push(*b, q);
            }
            if !(like_match(b.owner.as_str(), owner) && like_match(b.repo.as_str(), repo)) {
                kept.push(b.clone());
            }
            i += 1;
        }
        assert(input.take(input.len() as int) == input);
        let mut branches = branches;
        kept.append(&mut branches);
        self.branches = kept;
    }

    /// The entries of the stored tree `sha`, if it is stored.
    pub fn tree(&self, sha: &str) -> (res: Option<Vec<TreeEntry>>)
        ensures
            match first_where(self.trees@, tree_is(sha@)) {
                Some(i) => res matches Some(e) && e@ == self.trees@[i].1@,
                None => res is None,
            },
    {
        let ghost p = tree_is(sha@);
        let mut i: usize = 0;
        while i < self.trees.len()
            invariant
                i <= self.trees@.len(),
                p == tree_is(sha@),
                forall|j: int| 0 <= j < i ==> !#[trigger] p(self.trees@[j]),
            decreases self.trees@.len() - i,
        {
            if same_text(self.trees[i].0.as_str(), sha) {
                proof {
                    lemma_first_where_at(self.trees@, p, i as int);
                }
                return Some(copy_entries(&self.trees[i].1));
            }
            i += 1;
        }
        proof {
            lemma_first_where_none(self.trees@, p);
        }
        None
    }

    /// Stores the entries of tree `sha` over those stored for it, or adds them.
    pub fn put_tree(&mut self, sha: String, entries: Vec<TreeEntry>)
        ensures
            final(self).trees@ == put_spec(old(self).trees@, tree_is(sha@), (sha, entries)),
            final(self).repos@ == old(self).repos@,
            final(self).branches@ == old(self).branches@,
            final(self).blobs@ == old(self).blobs@,
    {
        let ghost p = tree_is(sha@);
        let mut i: usize = 0;
        while i < self.trees.len()
            invariant
                i <= self.trees@.len(),
                self.trees@ == old(self).trees@,
                self.repos@ == old(self).repos@,
                self.branches@ == old(self).branches@,
                self.blobs@ == old(self).blobs@,
                p == tree_is(sha@),
                forall|j: int| 0 <= j < i ==> !#[trigger] p(self.trees@[j]),
            decreases self.trees@.len() - i,
        {
            if same_text(self.trees[i].0.as_str(), sha.as_str()) {
                proof {
                    lemma_first_where_at(self.trees@, p, i as int);
                }
                self.trees.set(i, (sha, entries));
                return;
            }
            i += 1;
        }
        proof {
            lemma_first_where_none(self.trees@, p);
        }
        self.trees.push((sha, entries));
    }

    /// The stored blob `sha`, if any.
    pub fn blob(&self, sha: &str) -> (res: Option<Blob>)
        ensures
            match first_where(self.blobs@, blob_is(sha@)) {
                Some(i) => res matches Some(b) && blob_view(b) == blob_view(self.blobs@[i]),
                None => res is None,
            },
    {
        let ghost p = blob_is(sha@);
        let mut i: usize = 0;
        while i < self.blobs.len()
            invariant
                i <= self.blobs@.len(),
                p == blob_is(sha@),
                forall|j: int| 0 <= j < i ==> !#[trigger] p(self.blobs@[j]),
            decreases self.blobs@.len() - i,
        {
            if same_text(self.blobs[i].sha.as_str(), sha) {
                proof {
                    lemma_first_where_at(self.blobs@, p, i as int);
                }
                return Some(copy_blob(&self.blobs[i]));
            }
            i += 1;
        }
        proof {
            lemma_first_where_none(self.blobs@, p);
        }
        None
    }

    /// Stores a blob over the stored one of its hash, or adds it; with
    /// `keep_stored`, a stored blob of that hash is kept instead.
    pub fn put_blob(&mut self, blob: Blob, keep_stored: bool)
        ensures
            final(self).blobs@ == (if keep_stored && first_where(old(self).blobs@, blob_is(blob.sha@)) is Some {
                old(self).blobs@
            } else {
                put_spec(old(self).blobs@, blob_is(blob.sha@), blob)
            }),
            final(self).repos@ == old(self).repos@,
            final(self).branches@ == old(self).branches@,
            final(self).trees@ == old(self).trees@,
    {
        let ghost p = blob_is(blob.sha@);
        let mut i: usize = 0;
        while i < self.blobs.len()
            invariant
                i <= self.blobs@.len(),
                self.blobs@ == old(self).blobs@,
                self.repos@ == old(self).repos@,
                self.branches@ == old(self).branches@,
                self.trees@ == old(self).trees@,
                p == blob_is(blob.sha@),
                forall|j: int| 0 <= j < i ==> !#[trigger] p(self.blobs@[j]),
            decreases self.blobs@.len() - i,
        {
            if same_text(self.blobs[i].sha.as_str(), blob.sha.as_str()) {
                proof {
                    lemma_first_where_at(self.blobs@, p, i as int);
                }
                if !keep_stored {
                    self.blobs.set(i, blob);
                }
                return;
            }
            i += 1;
        }
        proof {
            lemma_first_where_none(self.blobs@, p);
        }
        self.blobs.push(blob);
    }
}

} // verus!
