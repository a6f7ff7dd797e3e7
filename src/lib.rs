//! Renders a tree of typed content blocks into one Markdown document, with
//! the header, title and file name that a migrated note needs.
pub mod block;
pub mod converter;
pub mod error;
pub mod fetch;
pub mod frontmatter;
pub mod inline;
pub mod list_context;
pub mod page_provider;
pub mod post_processor;
pub mod render;
pub mod text;

pub use block::{Block, BlockNode, BlockType, FileSource};
pub use converter::{extract_page_title, sanitize_filename};
pub use error::NotionToObsidianError;
pub use frontmatter::{DefaultFrontmatterGenerator, MyFrontmatterGenerator};
pub use inline::{rich_text_to_markdown, Annotations, RichText};
pub use list_context::ListContext;
pub use page_provider::{DatabasePageProvider, SinglePageProvider};
pub use post_processor::{DefaultPostProcessor, MyPostProcessor};
pub use render::{render_block, render_blocks};
