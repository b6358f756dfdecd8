pub mod frontmatter;
pub mod header;
pub mod laws;
pub mod page;
pub mod render;
