use notion_to_obsidian::{
    render_block, render_blocks, rich_text_to_markdown, Annotations, BlockNode, BlockType,
    FileSource, ListContext, RichText,
};

fn plain(s: &str) -> RichText {
    RichText::Text { text: s.to_string(), link: None, annotations: Annotations::plain() }
}

fn styled(s: &str, bold: bool, italic: bool, strikethrough: bool, code: bool) -> RichText {
    RichText::Text {
        text: s.to_string(),
        link: None,
        annotations: Annotations { bold, italic, strikethrough, code },
    }
}

fn para(s: &str) -> BlockNode {
    BlockNode::leaf(BlockType::Paragraph { text: vec![plain(s)] })
}

fn numbered(s: &str, children: Vec<BlockNode>) -> BlockNode {
    BlockNode::new(BlockType::NumberedListItem { text: vec![plain(s)] }, children)
}

fn bulleted(s: &str, children: Vec<BlockNode>) -> BlockNode {
    BlockNode::new(BlockType::BulletedListItem { text: vec![plain(s)] }, children)
}

fn row(cells: &[&str]) -> BlockNode {
    BlockNode::leaf(BlockType::TableRow { cells: cells.iter().map(|c| vec![plain(c)]).collect() })
}

#[test]
fn format_of_no_runs_is_empty() {
    assert_eq!(rich_text_to_markdown(&vec![]), "");
}

#[test]
fn all_annotations_nest_code_outermost() {
    let r = styled("x", true, true, true, true);
    assert_eq!(rich_text_to_markdown(&vec![r]), "`~~***x***~~`");
}

#[test]
fn single_annotations() {
    assert_eq!(rich_text_to_markdown(&vec![styled("b", true, false, false, false)]), "**b**");
    assert_eq!(rich_text_to_markdown(&vec![styled("i", false, true, false, false)]), "*i*");
    assert_eq!(rich_text_to_markdown(&vec![styled("s", false, false, true, false)]), "~~s~~");
    assert_eq!(rich_text_to_markdown(&vec![styled("c", false, false, false, true)]), "`c`");
}

#[test]
fn runs_concatenate_with_links_and_mentions() {
    let runs = vec![
        plain("see "),
        RichText::Text {
            text: "docs".to_string(),
            link: Some("https://e.x/d".to_string()),
            annotations: Annotations { bold: true, italic: false, strikethrough: false, code: false },
        },
        RichText::Mention { plain_text: "@Ann".to_string(), annotations: Annotations::plain() },
        RichText::Equation { plain_text: "E=mc^2".to_string(), annotations: Annotations::plain() },
        RichText::Empty,
        plain("*raw*"),
    ];
    assert_eq!(rich_text_to_markdown(&runs), "see **[docs](https://e.x/d)**@AnnE=mc^2*raw*");
}

#[test]
fn numbering_restarts_after_interruption() {
    let nodes = vec![para("p"), numbered("a", vec![]), numbered("b", vec![]), para("q"), numbered("c", vec![])];
    assert_eq!(render_blocks(&nodes), "p\n1. a\n2. b\nq\n1. c\n");
}

#[test]
fn nested_numbered_lists_count_on_their_own() {
    let nodes = vec![
        numbered("x", vec![]),
        numbered("a", vec![numbered("c1", vec![]), numbered("c2", vec![]), numbered("c3", vec![])]),
        numbered("b", vec![]),
    ];
    assert_eq!(render_blocks(&nodes), "1. x\n2. a\n  1. c1\n  2. c2\n  3. c3\n\n3. b\n");
}

#[test]
fn childless_block_ignores_children_list() {
    let mut node = bulleted("a", vec![para("hidden")]);
    node.block.has_children = false;
    assert_eq!(render_blocks(&vec![node]), "- a\n");
}

#[test]
fn empty_table_is_one_blank_line() {
    let t = BlockNode::leaf(BlockType::Table);
    assert_eq!(render_blocks(&vec![t]), "\n");
}

#[test]
fn round_trip_scenario() {
    let nodes = vec![
        BlockNode::leaf(BlockType::Heading1 { text: vec![plain("Title")] }),
        BlockNode::leaf(BlockType::Paragraph { text: vec![styled("hi", true, false, false, false)] }),
        bulleted("a", vec![bulleted("b", vec![])]),
    ];
    assert_eq!(render_blocks(&nodes), "# Title\n**hi**\n- a\n  - b\n\n");
}

#[test]
fn table_with_header_and_rows() {
    let t = BlockNode::new(BlockType::Table, vec![row(&["h1", "h2"]), row(&["a", "b"]), para("skip"), row(&["c", "d"])]);
    assert_eq!(
        render_blocks(&vec![t]),
        "| h1 | h2 |\n| --- | --- |\n| a | b |\n| c | d |\n\n"
    );
}

#[test]
fn table_whose_first_child_is_no_row() {
    let t = BlockNode::new(BlockType::Table, vec![para("x"), row(&["a"])]);
    assert_eq!(render_blocks(&vec![t]), "\n");
}

#[test]
fn paragraphs_and_headings() {
    let nodes = vec![
        para("  "),
        para(""),
        BlockNode::leaf(BlockType::Heading2 { text: vec![plain("two")] }),
        BlockNode::leaf(BlockType::Heading3 { text: vec![plain("three")] }),
    ];
    assert_eq!(render_blocks(&nodes), "\n\n## two\n### three\n");
}

#[test]
fn to_do_items() {
    let nodes = vec![
        BlockNode::leaf(BlockType::ToDo { text: vec![plain("done")], checked: Some(true) }),
        BlockNode::leaf(BlockType::ToDo { text: vec![plain("open")], checked: Some(false) }),
        BlockNode::leaf(BlockType::ToDo { text: vec![plain("unset")], checked: None }),
    ];
    assert_eq!(render_blocks(&nodes), "- [x] done\n- [ ] open\n- [ ] unset\n");
}

#[test]
fn toggle_indents_children_and_collapses_blank_lines() {
    let t = BlockNode::new(
        BlockType::Toggle { text: vec![plain("more")] },
        vec![para("one"), BlockNode::leaf(BlockType::Divider), para("two")],
    );
    assert_eq!(render_blocks(&vec![t]), "- more\n  one\n  ---\n  two\n\n");
}

#[test]
fn quote_prefixes_text_and_children() {
    let q = BlockNode::new(
        BlockType::Quote { text: vec![plain("l1\nl2")] },
        vec![para("child")],
    );
    assert_eq!(render_blocks(&vec![q]), "> l1\n> l2\n>child\n\n");
}

#[test]
fn callout_drops_lines_equal_to_its_text() {
    let c = BlockNode::new(
        BlockType::Callout { text: vec![plain("Note")] },
        vec![para("Note"), para("body")],
    );
    assert_eq!(render_blocks(&vec![c]), "> [!note] Note\n>body\n\n");
}

#[test]
fn code_block_lowercases_language() {
    let c = BlockNode::leaf(BlockType::Code { text: vec![plain("fn main() {}")], language: "Rust".to_string() });
    assert_eq!(render_blocks(&vec![c]), "```rust\nfn main() {}\n```\n");
}

#[test]
fn media_links_and_embeds() {
    let nodes = vec![
        BlockNode::leaf(BlockType::Image { file: FileSource::External { url: "http://i/1.png".to_string() } }),
        BlockNode::leaf(BlockType::Video { file: FileSource::Hosted { url: "http://h/v.mp4".to_string() } }),
        BlockNode::leaf(BlockType::Bookmark { url: "http://b".to_string() }),
        BlockNode::leaf(BlockType::LinkPreview { url: "http://l".to_string() }),
        BlockNode::leaf(BlockType::Divider),
        BlockNode::leaf(BlockType::Embed { url: "http://e".to_string() }),
    ];
    assert_eq!(
        render_blocks(&nodes),
        "![](http://i/1.png)\n\n![](http://h/v.mp4)\n\n[http://b](http://b)\n\n[http://l](http://l)\n\n---\n\n<iframe src=\"http://e\" width=\"100%\" height=\"500px\"></iframe>\n\n"
    );
}

#[test]
fn unsupported_block_renders_its_children() {
    let u = BlockNode::new(BlockType::Unsupported, vec![para("inside")]);
    let e = BlockNode::leaf(BlockType::Unsupported);
    assert_eq!(render_blocks(&vec![u, e]), "inside\n");
}

#[test]
fn render_block_advances_the_context() {
    let mut ctx = ListContext::new();
    assert_eq!(render_block(&numbered("a", vec![]), &mut ctx), "1. a\n");
    assert_eq!(render_block(&para("p"), &mut ctx), "p\n");
    assert_eq!(render_block(&numbered("b", vec![]), &mut ctx), "2. b\n");
}

#[test]
fn large_numbers_have_all_digits() {
    let nodes: Vec<BlockNode> = (0..12).map(|i| numbered(&format!("n{}", i), vec![])).collect();
    let out = render_blocks(&nodes);
    assert!(out.ends_with("10. n9\n11. n10\n12. n11\n"));
}

#[test]
fn list_context_push_and_pop() {
    let mut ctx = ListContext::new();
    assert_eq!(ctx.next_number(), 1);
    ctx.push();
    assert_eq!(ctx.next_number(), 1);
    assert_eq!(ctx.next_number(), 2);
    ctx.pop();
    assert_eq!(ctx.next_number(), 2);
    ctx.pop();
    assert_eq!(ctx.next_number(), 1);
}

#[test]
fn childless_block_deep_in_tree_ignores_children_list() {
    let mut inner = bulleted("b", vec![para("hidden")]);
    inner.block.has_children = false;
    let nodes = vec![numbered("a", vec![bulleted("x", vec![inner])])];
    assert_eq!(render_blocks(&nodes), "1. a\n  - x\n    - b\n\n");
}
