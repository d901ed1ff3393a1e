pub mod badges;
pub mod links;
pub mod readme_image;
pub mod walk;
