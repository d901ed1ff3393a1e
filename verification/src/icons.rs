pub mod info;
pub mod page;
pub mod scan;
pub mod size;
