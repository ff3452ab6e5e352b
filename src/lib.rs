pub mod book;
pub mod config;
pub mod highlight;
pub mod line;
pub mod loader;
pub mod search;
pub mod splitter;
pub mod style;
pub mod text;
