//! The block tree that the renderer reads.
use vstd::prelude::*;
use crate::inline::RichText;

verus! {

/// Where a file lives: at an outside address, or hosted by the content source.
#[derive(Clone, Debug)]
pub enum FileSource {
    External { url: String },
    Hosted { url: String },
}

/// The kinds of block, each with what its rendering reads.
#[derive(Clone, Debug)]
pub enum BlockType {
    Paragraph { text: Vec<RichText> },
    Heading1 { text: Vec<RichText> },
    Heading2 { text: Vec<RichText> },
    Heading3 { text: Vec<RichText> },
    BulletedListItem { text: Vec<RichText> },
    NumberedListItem { text: Vec<RichText> },
    ToDo { text: Vec<RichText>, checked: Option<bool> },
    Toggle { text: Vec<RichText> },
    Quote { text: Vec<RichText> },
    Callout { text: Vec<RichText> },
    Code { text: Vec<RichText>, language: String },
    Image { file: FileSource },
    Video { file: FileSource },
    Bookmark { url: String },
    LinkPreview { url: String },
    Divider,
    Table,
    TableRow { cells: Vec<Vec<RichText>> },
    Embed { url: String },
    Unsupported,
}

/// One block and whether it has descendants upstream.
#[derive(Clone, Debug)]
pub struct Block {
    pub block_type: BlockType,
    pub has_children: bool,
}

/// A block with its children, already fetched, in order.
pub struct BlockNode {
    pub block: Block,
    pub children: Vec<BlockNode>,
}

impl BlockNode {
    /// A node with the given block and children.
    pub fn new(block_type: BlockType, children: Vec<BlockNode>) -> (r: BlockNode)
        ensures
            r.block.block_type == block_type,
            r.block.has_children == (children@.len() > 0),
            r.children@ == children@,
    {
        let has_children = children.len() > 0;
        BlockNode { block: Block { block_type, has_children }, children }
    }

    /// A node without children.
    pub fn leaf(block_type: BlockType) -> (r: BlockNode)
        ensures
            r.block.block_type == block_type,
            !r.block.has_children,
            r.children@.len() == 0,
    {
        BlockNode { block: Block { block_type, has_children: false }, children: Vec::new() }
    }
}

/// Whether the block is a numbered-list item.
pub open spec fn is_numbered(b: BlockType) -> bool {
    b is NumberedListItem
}

/// The children that rendering reads: none unless the block says it has some.
pub open spec fn kids(n: BlockNode) -> Seq<BlockNode> {
    if n.block.has_children {
        n.children@
    } else {
        Seq::empty()
    }
}

} // verus!
