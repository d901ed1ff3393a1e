pub mod github_fs;
pub mod path;
