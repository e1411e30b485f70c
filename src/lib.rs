//! A static-site build pipeline: source files are split into front matter and
//! body, dispatched to content parsers, rendered into pages by content
//! generators, aggregated by one-time generators, and checked for colliding
//! output paths before anything is written.
pub mod pipeline;
pub mod cli;
pub mod date;
pub mod front_matter;
pub mod homepage;
pub mod html_pages;
pub mod slug;
pub mod markdown;
pub mod posts;
pub mod site;
pub mod text;
pub mod yaml;

pub use site::{PageData, PageMetadata, PageType};
