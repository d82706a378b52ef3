pub mod text;
pub mod highlights;
pub mod tables;
pub mod theme;
pub mod colour_code;
pub mod parser;
pub mod render;
pub mod tree_sitter_config;
pub mod config;
