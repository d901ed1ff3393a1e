pub mod avatar;
pub mod icon;
pub mod page;
pub mod rsrc;
