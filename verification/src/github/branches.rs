use crate::text::{chars_of};
use vstd::prelude::*;

verus! {

/// A branch of a repository and the tree that its head commit points to.
#[derive(Debug)]
pub struct Branch {
    pub owner: String,
    pub repo: String,
    pub name: String,
    pub tree_sha: String,
}

impl Clone for Branch {
    fn clone(&self) -> (res: Self)
        ensures
            res == *self,
    {
        Branch {
            owner: self.owner.clone(),
            repo: self.repo.clone(),
            name: self.name.clone(),
            tree_sha: self.tree_sha.clone(),
        }
    }
}

/// The branches of a repository.
#[derive(Debug)]
pub struct Branches {
    pub entries: Vec<Branch>,
}

/// A branch as the GitHub API lists it.
pub struct BranchData {
    pub name: String,
    pub commit: CommitData,
}

/// The head commit of a branch as the GitHub API lists it.
pub struct CommitData {
    pub sha: String,
}

/// Why a branch could not be found.
#[derive(Debug, Clone, Copy, PartialEq, Eq, Structural)]
pub enum BranchError {
    /// The repository has no branch of the default branch's name.
    MissingDefaultBranch,
}

/// The index of the first branch named `name`, if any.
pub open spec fn first_named(entries: Seq<Branch>, name: Seq<char>) -> Option<int> {
    if exists|i: int| 0 <= i < entries.len() && #[trigger] entries[i].name@ == name {
        Some(choose|i: int| 0 <= i < entries.len() && #[trigger] entries[i].name@ == name
            && forall|j: int| 0 <= j < i ==> #[trigger] entries[j].name@ != name)
    } else {
        None
    }
}

/// Whether two strings hold the same text.
pub(crate) fn same_text(a: &str, b: &str) -> (res: bool)
    ensures
        res == (a@ == b@),
{
    let x = chars_of(a);
    let y = chars_of(b);
    if x.len() != y.len() {
        return false;
    }
    let mut i: usize = 0;
    while i < x.len()
        invariant
            x@ == a@,
            y@ == b@,
            x@.len() == y@.len(),
            i <= x@.len(),
            forall|k: int| 0 <= k < i ==> x@[k] == y@[k],
        decreases x@.len() - i,
    {
        if x[i] != y[i] {
            assert(a@[i as int] != b@[i as int]);
            return false;
        }
        i += 1;
    }
    assert(x@ =~= y@);
    true
}

impl Branches {
    /// The first branch named `name`, copied.
    pub fn get_branch(&self, name: &str) -> (res: Option<Branch>)
        ensures
            match first_named(self.entries@, name@) {
                Some(i) => res == Some(self.entries@[i]),
                None => res is None,
            },
    {
        let mut i: usize = 0;
        while i < self.entries.len()
            invariant
                i <= self.entries@.len(),
                forall|j: int| 0 <= j < i ==> #[trigger] self.entries@[j].name@ != name@,
            decreases self.entries@.len() - i,
        {
            if same_text(self.entries[i].name.as_str(), name) {
                let ghost k = i as int;
                assert(self.entries@[k].name@ == name@);
                let ghost c = choose|j: int| 0 <= j < self.entries@.len() && #[trigger] self.entries@[j].name@ == name@
                    && forall|m: int| 0 <= m < j ==> #[trigger] self.entries@[m].name@ != name@;
                assert(0 <= k < self.entries@.len() && self.entries@[k].name@ == name@
                    && forall|m: int| 0 <= m < k ==> #[trigger] self.entries@[m].name@ != name@);
                assert(c == k) by {
                    if c < k {
                        assert(self.entries@[c].name@ != name@);
                    } else if c > k {
                        assert(self.entries@[k].name@ != name@);
                    }
                }
                return Some(self.entries[i].clone());
            }
            i += 1;
        }
        None
    }

    /// The branches found in the store for a repository, or `None` when there
    /// are none and they must be fetched.
    pub fn from_stored(entries: Vec<Branch>) -> (res: Option<Branches>)
        ensures
            entries@.len() == 0 <==> res is None,
            res matches Some(b) ==> b.entries@ == entries@,
    {
        if entries.len() == 0 {
            None
        } else {
            Some(Branches { entries })
        }
    }

    /// The branches of `owner/repo` that the GitHub API listed, in its order,
    /// each with the tree of its head commit.
    pub fn from_data(owner: &str, repo: &str, data: Vec<BranchData>) -> (res: Branches)
        ensures
            res.entries@.len() == data@.len(),
            forall|i: int| 0 <= i < data@.len() ==> {
                &&& #[trigger] res.entries@[i].owner@ == owner@
                &&& res.entries@[i].repo@ == repo@
                &&& res.entries@[i].name == data@[i].name
                &&& res.entries@[i].tree_sha == data@[i].commit.sha
            },
    {
        let ghost input = data@;
        let total = data.len();
        let mut rest = data;
        let mut entries: Vec<Branch> = Vec::new();
        let mut n: usize = 0;
        while rest.len() > 0
            invariant
                n + rest@.len() == input.len(),
                total == input.len(),
                rest@ == input.skip(n as int),
                entries@.len() == n,
                forall|i: int| 0 <= i < n ==> {
                    &&& #[trigger] entries@[i].owner@ == owner@
                    &&& entries@[i].repo@ == repo@
                    &&& entries@[i].name == input[i].name
                    &&& entries@[i].tree_sha == input[i].commit.sha
                },
            decreases rest@.len(),
        {
            let item = rest.remove(0);
            assert(item == input[n as int]);
            entries.push(Branch {
                owner: owner.to_string(),
                repo: repo.to_string(),
                name: item.name,
                tree_sha: item.commit.sha,
            });
            n += 1;
            assert(rest@ =~= input.skip(n as int));
        }
        Branches { entries }
    }

    /// The branch named after the repository's default branch.
    pub fn default_branch(&self, default_name: &str) -> (res: Result<Branch, BranchError>)
        ensures
            match first_named(self.entries@, default_name@) {
                Some(i) => res == Ok::<Branch, BranchError>(self.entries@[i]),
                None => res == Err::<Branch, BranchError>(BranchError::MissingDefaultBranch),
            },
    {
        match self.get_branch(default_name) {
            Some(b) => Ok(b),
            None => Err(BranchError::MissingDefaultBranch),
        }
    }
}

} // verus!
