pub mod path;
pub mod path_parser;
