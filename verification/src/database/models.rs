use vstd::prelude::*;

verus! {

/// A user as the store keeps it.
#[derive(Debug)]
pub struct User {
    pub name: String,
    pub description: Option<String>,
}

/// A repository as the relational store keeps it.
#[derive(Debug)]
pub struct Repo {
    pub id: i32,
    pub user_name: String,
    pub name: String,
    pub description: Option<String>,
    pub private: bool,
    pub fork: bool,
}

} // verus!
