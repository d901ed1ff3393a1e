pub mod blob;
pub mod branches;
pub mod repo;
pub mod repo_icons;
pub mod store;
pub mod tree;
pub mod tree_entry;
pub mod user;
