use vstd::prelude::*;

verus! {

/// A repository as the store keeps it.
#[derive(Debug)]
pub struct Repo {
    pub owner: String,
    pub name: String,
    pub default_branch: String,
    pub description: Option<String>,
    pub homepage: Option<String>,
    pub private: bool,
    pub fork: bool,
}

/// A repository as it is written to the store.
#[derive(Debug)]
pub struct RepoData {
    pub owner: String,
    pub name: String,
    pub description: Option<String>,
    pub default_branch: String,
    pub homepage: Option<String>,
    pub private: bool,
    pub fork: bool,
}

/// A repository as the GitHub API describes it, with the owner's login.
pub struct RawRepo {
    pub name: String,
    pub owner_login: String,
    pub private: bool,
    pub default_branch: String,
    pub fork: bool,
    pub description: Option<String>,
    pub homepage: Option<String>,
}

/// The repositories of a user.
pub struct UserRepos {}

/// A homepage, with an empty one counted as none.
pub open spec fn homepage_spec(h: Option<String>) -> Option<String> {
    match h {
        Some(s) => if s@.len() == 0 { None } else { Some(s) },
        None => None,
    }
}

impl RepoData {
    /// The repository that an API description describes; an empty homepage
    /// counts as none.
    pub fn from_raw(raw: RawRepo) -> (res: RepoData)
        ensures
            res.owner == raw.owner_login,
            res.name == raw.name,
            res.default_branch == raw.default_branch,
            res.description == raw.description,
            res.private == raw.private,
            res.fork == raw.fork,
            res.homepage == homepage_spec(raw.homepage),
    {
        let homepage = match raw.homepage {
            Some(h) => if h.as_str().is_empty() {
                None
            } else {
                Some(h)
            },
            None => None,
        };
        RepoData {
            owner: raw.owner_login,
            name: raw.name,
            default_branch: raw.default_branch,
            description: raw.description,
            private: raw.private,
            fork: raw.fork,
            homepage,
        }
    }
}


/// A repository as the relational store keeps it, before it is written.
#[derive(Debug)]
pub struct NewRepo {
    pub id: i32,
    pub user_name: String,
    pub name: String,
    pub description: Option<String>,
    pub private: bool,
    pub fork: bool,
}

/// A repository as the GitHub API describes it, for `NewRepo`.
pub struct RawNewRepo {
    pub id: i32,
    pub name: String,
    pub owner_login: String,
    pub private: bool,
    pub fork: bool,
    pub description: Option<String>,
}

impl NewRepo {
    /// The repository that an API description describes.
    pub fn from_raw(raw: RawNewRepo) -> (res: NewRepo)
        ensures
            res.id == raw.id,
            res.user_name == raw.owner_login,
            res.name == raw.name,
            res.description == raw.description,
            res.private == raw.private,
            res.fork == raw.fork,
    {
        NewRepo {
            id: raw.id,
            user_name: raw.owner_login,
            name: raw.name,
            description: raw.description,
            private: raw.private,
            fork: raw.fork,
        }
    }
}

impl UserRepos {
    /// The repositories that the store holds for a user, or `None` when it
    /// holds none and they must be fetched.
    pub fn from_stored(repos: Vec<Repo>) -> (res: Option<Vec<Repo>>)
        ensures
            repos@.len() == 0 <==> res is None,
            res matches Some(r) ==> r@ == repos@,
    {
        if repos.len() == 0 {
            None
        } else {
            Some(repos)
        }
    }
}

} // verus!
