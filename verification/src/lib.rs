pub mod bytes;
pub mod database;
pub mod fs;
pub mod fs_mt;
pub mod github;
pub mod hello;
pub mod hello_icon;
pub mod icon_manager;
pub mod icons;
pub mod matching;
pub mod native;
pub mod reply;
pub mod sort;
pub mod text;
pub mod web;
