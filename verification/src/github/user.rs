use std::sync::Arc;
use vstd::prelude::*;

verus! {

/// A user's login.
pub type UserLogin = Arc<String>;

/// A GitHub user and the ids of their repositories.
#[derive(Debug)]
pub struct User {
    pub login: UserLogin,
    pub description: Option<String>,
    pub repos: Vec<u32>,
}

impl User {
    /// A user with the given login, description and repositories.
    pub fn new(login: UserLogin, description: Option<String>, repos: Vec<u32>) -> (res: Self)
        ensures
            res.login == login,
            res.description == description,
            res.repos == repos,
    {
        User { login, description, repos }
    }
}

/// An organization that the signed-in user belongs to.
#[derive(Debug)]
pub struct Organization {
    pub login: String,
}

} // verus!
