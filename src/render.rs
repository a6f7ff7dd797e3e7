//! The block-tree renderer: one block, a run of siblings, and tables.
use vstd::prelude::*;
use crate::block::{is_numbered, kids, BlockNode, BlockType, FileSource};
use crate::inline::{format_runs, push_runs, runs_to_chars, RichText};
use crate::list_context::ListContext;
use crate::text::{
    blank, collapse, collapse_blank_lines, decimal, is_blank, keep_lines, lines,
    prefixed, drop_equal, push_all, push_decimal, push_prefixed_lines, push_str, skip_view,
    string_of,
};

verus! {

/// What `str::to_lowercase` returns for the given chars.
pub uninterp spec fn lower_of(s: Seq<char>) -> Seq<char>;

/// Relies on `str::to_lowercase`: the result depends on the chars alone.
#[verifier::external_body]
fn lowercase(s: &str) -> (r: String)
    ensures
        r@ == lower_of(s@),
{
    s.to_lowercase()
}

/// The address of a file, whichever form it has.
pub open spec fn file_url(f: FileSource) -> Seq<char> {
    match f {
        FileSource::External { url } => url@,
        FileSource::Hosted { url } => url@,
    }
}

/// The number of the item at `i` in its run of consecutive numbered items:
/// one after anything that is not a numbered item.
pub open spec fn run_len(nodes: Seq<BlockNode>, i: int) -> nat
    decreases i,
{
    if i <= 0 {
        1
    } else if is_numbered(nodes[i - 1].block.block_type) {
        run_len(nodes, i - 1) + 1
    } else {
        1
    }
}

/// Child Markdown with blank lines collapsed, each line indented by two
/// spaces, and one more newline after them when there are any.
pub open spec fn indented(s: Seq<char>) -> Seq<char> {
    prefixed(seq![' ', ' '], lines(collapse(s))) + if collapse(s).len() > 0 {
        seq!['\n']
    } else {
        Seq::empty()
    }
}

/// The cells of a table row: ` cell |` for each.
pub open spec fn cells_markdown(cells: Seq<Vec<RichText>>) -> Seq<char>
    decreases cells.len(),
{
    if cells.len() == 0 {
        Seq::empty()
    } else {
        cells_markdown(cells.drop_last()) + seq![' '] + format_runs(cells.last()@) + seq![' ', '|']
    }
}

/// One table row: `|`, its cells, a newline.
pub open spec fn row_markdown(cells: Seq<Vec<RichText>>) -> Seq<char> {
    seq!['|'] + cells_markdown(cells) + seq!['\n']
}

/// `n` separator cells ` --- |`.
pub open spec fn separator_cells(n: nat) -> Seq<char>
    decreases n,
{
    if n == 0 {
        Seq::empty()
    } else {
        separator_cells((n - 1) as nat) + " --- |"@
    }
}

/// The table rows among `rows[1..n]`, each rendered as a row.
pub open spec fn data_rows(rows: Seq<BlockNode>, n: int) -> Seq<char>
    decreases n,
{
    if n <= 1 || n > rows.len() {
        Seq::empty()
    } else {
        data_rows(rows, n - 1) + match rows[n - 1].block.block_type {
            BlockType::TableRow { cells } => row_markdown(cells@),
            _ => Seq::empty(),
        }
    }
}

/// A table's rows: the first row's cells as header, a separator row of as many
/// cells, then the other rows; nothing when the first child is not a row.
pub open spec fn table_markdown(rows: Seq<BlockNode>) -> Seq<char> {
    if rows.len() == 0 {
        Seq::empty()
    } else {
        match rows[0].block.block_type {
            BlockType::TableRow { cells } => row_markdown(cells@) + seq!['|'] + separator_cells(
                cells@.len(),
            ) + seq!['\n'] + data_rows(rows, rows.len() as int),
            _ => Seq::empty(),
        }
    }
}

/// The Markdown of the first `n` siblings of `nodes`, each numbered item
/// numbered by its place in its run.
pub open spec fn render_seq(nodes: Seq<BlockNode>, n: int) -> Seq<char>
    decreases nodes, n,
{
    if n <= 0 || n > nodes.len() {
        Seq::empty()
    } else {
        render_seq(nodes, n - 1) + render_node(nodes[n - 1], run_len(nodes, n - 1))
    }
}

/// The Markdown of a whole sibling sequence.
pub open spec fn render_all(nodes: Seq<BlockNode>) -> Seq<char> {
    render_seq(nodes, nodes.len() as int)
}

/// The Markdown of a node's children; empty when it has none.
pub open spec fn children_markdown(node: BlockNode) -> Seq<char>
    decreases node, 1int,
{
    if node.block.has_children {
        render_seq(node.children@, node.children@.len() as int)
    } else {
        Seq::empty()
    }
}

/// The Markdown of one block; `number` is used by a numbered-list item only.
pub open spec fn render_node(node: BlockNode, number: nat) -> Seq<char>
    decreases node, 2int,
{
    match node.block.block_type {
        BlockType::Paragraph { text } => {
            let t = format_runs(text@);
            if is_blank(t) { seq!['\n'] } else { t + seq!['\n'] }
        },
        BlockType::Heading1 { text } => seq!['#', ' '] + format_runs(text@) + seq!['\n'],
        BlockType::Heading2 { text } => seq!['#', '#', ' '] + format_runs(text@) + seq!['\n'],
        BlockType::Heading3 { text } => seq!['#', '#', '#', ' '] + format_runs(text@) + seq!['\n'],
        BlockType::BulletedListItem { text } => seq!['-', ' '] + format_runs(text@) + seq!['\n']
            + indented(children_markdown(node)),
        BlockType::NumberedListItem { text } => decimal(number) + seq!['.', ' '] + format_runs(
            text@,
        ) + seq!['\n'] + indented(children_markdown(node)),
        BlockType::ToDo { text, checked } => (if checked == Some(true) {
            "- [x] "@
        } else {
            "- [ ] "@
        }) + format_runs(text@) + seq!['\n'],
        BlockType::Toggle { text } => seq!['-', ' '] + format_runs(text@) + seq!['\n'] + indented(
            children_markdown(node),
        ),
        BlockType::Quote { text } => prefixed(seq!['>', ' '], lines(format_runs(text@)))
            + prefixed(seq!['>'], lines(children_markdown(node))) + seq!['\n'],
        BlockType::Callout { text } => "> [!note] "@ + format_runs(text@) + seq!['\n'] + prefixed(
            seq!['>'],
            drop_equal(lines(collapse(children_markdown(node))), format_runs(text@)),
        ) + seq!['\n'],
        BlockType::Code { text, language } => "```"@ + lower_of(language@) + seq!['\n']
            + format_runs(text@) + "\n```\n"@,
        BlockType::Image { file } => "![]("@ + file_url(file) + ")\n\n"@,
        BlockType::Video { file } => "![]("@ + file_url(file) + ")\n\n"@,
        BlockType::Bookmark { url } => seq!['['] + url@ + "]("@ + url@ + ")\n\n"@,
        BlockType::LinkPreview { url } => seq!['['] + url@ + "]("@ + url@ + ")\n\n"@,
        BlockType::Divider => "---\n\n"@,
        BlockType::Embed { url } => "<iframe src=\""@ + url@
            + "\" width=\"100%\" height=\"500px\"></iframe>\n\n"@,
        BlockType::Table => table_markdown(kids(node)) + seq!['\n'],
        BlockType::TableRow { .. } => children_markdown(node),
        BlockType::Unsupported => children_markdown(node),
    }
}

fn push_cells(out: &mut Vec<char>, cells: &Vec<Vec<RichText>>)
    ensures
        final(out)@ == old(out)@ + cells_markdown(cells@),
{
    let mut i: usize = 0;
    assert(cells@.subrange(0, 0) =~= Seq::<Vec<RichText>>::empty());
    while i < cells.len()
        invariant
            i <= cells@.len(),
            out@ == old(out)@ + cells_markdown(cells@.subrange(0, i as int)),
        decreases cells@.len() - i,
    {
        out.push(' ');
        push_runs(out, &cells[i]);
        out.push(' ');
        out.push('|');
        i = i + 1;
        assert(cells@.subrange(0, i as int).drop_last() =~= cells@.subrange(0, i - 1));
        assert(out@ =~= old(out)@ + cells_markdown(cells@.subrange(0, i as int)));
    }
    assert(cells@.subrange(0, i as int) =~= cells@);
}

fn push_row(out: &mut Vec<char>, cells: &Vec<Vec<RichText>>)
    ensures
        final(out)@ == old(out)@ + row_markdown(cells@),
{
    out.push('|');
    push_cells(out, cells);
    out.push('\n');
    assert(out@ =~= old(out)@ + row_markdown(cells@));
}

fn push_separator(out: &mut Vec<char>, n: usize)
    ensures
        final(out)@ == old(out)@ + separator_cells(n as nat),
{
    let mut i: usize = 0;
    while i < n
        invariant
            i <= n,
            out@ == old(out)@ + separator_cells(i as nat),
        decreases n - i,
    {
        push_str(out, " --- |");
        i = i + 1;
        assert(out@ =~= old(out)@ + separator_cells(i as nat));
    }
}

/// Appends `table_markdown(rows)` to `out`.
fn push_table(out: &mut Vec<char>, rows: &Vec<BlockNode>)
    ensures
        final(out)@ == old(out)@ + table_markdown(rows@),
{
    if rows.len() == 0 {
        assert(out@ =~= old(out)@ + table_markdown(rows@));
        return;
    }
    match &rows[0].block.block_type {
        BlockType::TableRow { cells } => {
            push_row(out, cells);
            out.push('|');
            push_separator(out, cells.len());
            out.push('\n');
            let ghost head = out@;
            let mut i: usize = 1;
            while i < rows.len()
                invariant
                    1 <= i <= rows@.len(),
                    out@ == head + data_rows(rows@, i as int),
                decreases rows@.len() - i,
            {
                match &rows[i].block.block_type {
                    BlockType::TableRow { cells } => {
                        push_row(out, cells);
                    },
                    _ => {},
                }
                i = i + 1;
                assert(out@ =~= head + data_rows(rows@, i as int));
            }
            assert(out@ =~= old(out)@ + table_markdown(rows@));
        },
        _ => {
            assert(out@ =~= old(out)@ + table_markdown(rows@));
        },
    }
}

/// A numbered item's own number plays no part in any other block's Markdown.
proof fn lemma_number_unused(node: BlockNode, a: nat, b: nat)
    requires
        !is_numbered(node.block.block_type),
    ensures
        render_node(node, a) == render_node(node, b),
{
}

/// Appends the Markdown of the node's children (none unless it has some).
fn push_children(out: &mut Vec<char>, node: &BlockNode)
    ensures
        final(out)@ == old(out)@ + children_markdown(*node),
    decreases *node, 1int,
{
    if node.block.has_children {
        render_blocks_into(out, &node.children);
    }
}

fn children_of(node: &BlockNode) -> (r: Vec<char>)
    ensures
        r@ == children_markdown(*node),
    decreases *node, 2int,
{
    let mut c: Vec<char> = Vec::new();
    push_children(&mut c, node);
    assert(c@ =~= children_markdown(*node));
    c
}

/// The short markers, char by char.
proof fn lemma_markers()
    ensures
        "# "@ == seq!['#', ' '],
        "## "@ == seq!['#', '#', ' '],
        "### "@ == seq!['#', '#', '#', ' '],
        "- "@ == seq!['-', ' '],
        "  "@ == seq![' ', ' '],
        "> "@ == seq!['>', ' '],
        ">"@ == seq!['>'],
        ". "@ == seq!['.', ' '],
{
    reveal_strlit("# ");
    reveal_strlit("## ");
    reveal_strlit("### ");
    reveal_strlit("- ");
    reveal_strlit("  ");
    reveal_strlit("> ");
    reveal_strlit(">");
    reveal_strlit(". ");
    assert("# "@ =~= seq!['#', ' ']);
    assert("## "@ =~= seq!['#', '#', ' ']);
    assert("### "@ =~= seq!['#', '#', '#', ' ']);
    assert("- "@ =~= seq!['-', ' ']);
    assert("  "@ =~= seq![' ', ' ']);
    assert("> "@ =~= seq!['>', ' ']);
    assert(">"@ =~= seq!['>']);
    assert(". "@ =~= seq!['.', ' ']);
}

fn push_line_block(out: &mut Vec<char>, marker: &str, text: &Vec<RichText>)
    ensures
        final(out)@ == old(out)@ + marker@ + format_runs(text@) + seq!['\n'],
{
    push_str(out, marker);
    push_runs(out, text);
    out.push('\n');
    assert(out@ =~= old(out)@ + marker@ + format_runs(text@) + seq!['\n']);
}

fn push_indented_children(out: &mut Vec<char>, node: &BlockNode)
    ensures
        final(out)@ == old(out)@ + indented(children_markdown(*node)),
    decreases *node, 3int,
{
    let c = collapse_blank_lines(&children_of(node));
    push_prefixed_lines(out, "  ", &c, None);
    if c.len() > 0 {
        out.push('\n');
    }
    proof {
        lemma_markers();
        assert(keep_lines(lines(c@), skip_view(None)) == lines(c@));
        assert(out@ =~= old(out)@ + indented(children_markdown(*node)));
    }
}

fn push_quote(out: &mut Vec<char>, node: &BlockNode, text: &Vec<RichText>)
    ensures
        final(out)@ == old(out)@ + prefixed(seq!['>', ' '], lines(format_runs(text@)))
            + prefixed(seq!['>'], lines(children_markdown(*node))) + seq!['\n'],
    decreases *node, 3int,
{
    let t = runs_to_chars(text);
    push_prefixed_lines(out, "> ", &t, None);
    let c = children_of(node);
    push_prefixed_lines(out, ">", &c, None);
    out.push('\n');
    proof {
        lemma_markers();
        assert(keep_lines(lines(c@), skip_view(None)) == lines(c@));
        assert(keep_lines(lines(t@), skip_view(None)) == lines(t@));
        assert(out@ =~= old(out)@ + prefixed(seq!['>', ' '], lines(format_runs(text@)))
            + prefixed(seq!['>'], lines(children_markdown(*node))) + seq!['\n']);
    }
}

fn push_callout(out: &mut Vec<char>, node: &BlockNode, text: &Vec<RichText>)
    ensures
        final(out)@ == old(out)@ + "> [!note] "@ + format_runs(text@) + seq!['\n'] + prefixed(
            seq!['>'],
            drop_equal(lines(collapse(children_markdown(*node))), format_runs(text@)),
        ) + seq!['\n'],
    decreases *node, 3int,
{
    let t = runs_to_chars(text);
    push_str(out, "> [!note] ");
    push_all(out, t.as_slice());
    out.push('\n');
    let c = collapse_blank_lines(&children_of(node));
    push_prefixed_lines(out, ">", &c, Some(&t));
    out.push('\n');
    proof {
        lemma_markers();
        assert(out@ =~= old(out)@ + "> [!note] "@ + format_runs(text@) + seq!['\n'] + prefixed(
            seq!['>'],
            drop_equal(lines(collapse(children_markdown(*node))), format_runs(text@)),
        ) + seq!['\n']);
    }
}

fn push_numbered(out: &mut Vec<char>, node: &BlockNode, text: &Vec<RichText>, ctx: &mut ListContext)
    requires
        old(ctx).wf(),
        old(ctx).current() < usize::MAX,
    ensures
        final(out)@ == old(out)@ + decimal((old(ctx).current() + 1) as nat) + seq!['.', ' ']
            + format_runs(text@) + seq!['\n'] + indented(children_markdown(*node)),
        final(ctx).wf(),
        final(ctx)@ == old(ctx)@.update(old(ctx)@.len() - 1, (old(ctx).current() + 1) as usize),
    decreases *node, 4int,
{
    let n = ctx.next_number();
    push_decimal(out, n);
    push_str(out, ". ");
    push_runs(out, text);
    out.push('\n');
    ctx.push();
    push_indented_children(out, node);
    ctx.pop();
    proof {
        lemma_markers();
        assert(out@ =~= old(out)@ + decimal((old(ctx).current() + 1) as nat) + seq!['.', ' ']
            + format_runs(text@) + seq!['\n'] + indented(children_markdown(*node)));
    }
}

fn push_link_block(out: &mut Vec<char>, url: &String)
    ensures
        final(out)@ == old(out)@ + seq!['['] + url@ + "]("@ + url@ + ")\n\n"@,
{
    out.push('[');
    push_str(out, url.as_str());
    push_str(out, "](");
    push_str(out, url.as_str());
    push_str(out, ")\n\n");
    assert(out@ =~= old(out)@ + seq!['['] + url@ + "]("@ + url@ + ")\n\n"@);
}

fn push_file_block(out: &mut Vec<char>, file: &FileSource)
    ensures
        final(out)@ == old(out)@ + "![]("@ + file_url(*file) + ")\n\n"@,
{
    push_str(out, "![](");
    match file {
        FileSource::External { url } => push_str(out, url.as_str()),
        FileSource::Hosted { url } => push_str(out, url.as_str()),
    }
    push_str(out, ")\n\n");
    assert(out@ =~= old(out)@ + "![]("@ + file_url(*file) + ")\n\n"@);
}

fn push_code(out: &mut Vec<char>, text: &Vec<RichText>, language: &String)
    ensures
        final(out)@ == old(out)@ + "```"@ + lower_of(language@) + seq!['\n'] + format_runs(text@)
            + "\n```\n"@,
{
    push_str(out, "```");
    let lang = lowercase(language.as_str());
    push_str(out, lang.as_str());
    out.push('\n');
    push_runs(out, text);
    push_str(out, "\n```\n");
    assert(out@ =~= old(out)@ + "```"@ + lower_of(language@) + seq!['\n'] + format_runs(text@)
        + "\n```\n"@);
}

fn push_embed(out: &mut Vec<char>, url: &String)
    ensures
        final(out)@ == old(out)@ + "<iframe src=\""@ + url@
            + "\" width=\"100%\" height=\"500px\"></iframe>\n\n"@,
{
    push_str(out, "<iframe src=\"");
    push_str(out, url.as_str());
    push_str(out, "\" width=\"100%\" height=\"500px\"></iframe>\n\n");
    assert(out@ =~= old(out)@ + "<iframe src=\""@ + url@
        + "\" width=\"100%\" height=\"500px\"></iframe>\n\n"@);
}

fn push_table_block(out: &mut Vec<char>, node: &BlockNode)
    ensures
        final(out)@ == old(out)@ + table_markdown(kids(*node)) + seq!['\n'],
{
    if node.block.has_children {
        push_table(out, &node.children);
    } else {
        let none: Vec<BlockNode> = Vec::new();
        push_table(out, &none);
        assert(none@ =~= kids(*node));
    }
    out.push('\n');
    assert(out@ =~= old(out)@ + table_markdown(kids(*node)) + seq!['\n']);
}

fn push_paragraph(out: &mut Vec<char>, text: &Vec<RichText>)
    ensures
        final(out)@ == old(out)@ + {
            let t = format_runs(text@);
            if is_blank(t) { seq!['\n'] } else { t + seq!['\n'] }
        },
{
    let t = runs_to_chars(text);
    if blank(&t) {
        out.push('\n');
    } else {
        push_all(out, t.as_slice());
        out.push('\n');
    }
    assert(out@ =~= old(out)@ + {
        let t = format_runs(text@);
        if is_blank(t) { seq!['\n'] } else { t + seq!['\n'] }
    });
}

/// Appends the Markdown of one block. A numbered-list item takes the next
/// number of `ctx` at its depth and renders its children one depth deeper.
pub fn render_block_into(out: &mut Vec<char>, node: &BlockNode, ctx: &mut ListContext)
    requires
        old(ctx).wf(),
        old(ctx).current() < usize::MAX,
    ensures
        final(out)@ == old(out)@ + render_node(*node, (old(ctx).current() + 1) as nat),
        final(ctx).wf(),
        final(ctx)@ == if is_numbered(node.block.block_type) {
            old(ctx)@.update(old(ctx)@.len() - 1, (old(ctx).current() + 1) as usize)
        } else {
            old(ctx)@
        },
    decreases *node, 5int,
{
    let ghost number = (old(ctx).current() + 1) as nat;
    proof {
        lemma_markers();
    }
    match &node.block.block_type {
        BlockType::Paragraph { text } => {
            push_paragraph(out, text);
            assert(out@ =~= old(out)@ + render_node(*node, number));
        },
        BlockType::Heading1 { text } => {
            push_line_block(out, "# ", text);
            assert(out@ =~= old(out)@ + render_node(*node, number));
        },
        BlockType::Heading2 { text } => {
            push_line_block(out, "## ", text);
            assert(out@ =~= old(out)@ + render_node(*node, number));
        },
        BlockType::Heading3 { text } => {
            push_line_block(out, "### ", text);
            assert(out@ =~= old(out)@ + render_node(*node, number));
        },
        BlockType::BulletedListItem { text } => {
            push_line_block(out, "- ", text);
            push_indented_children(out, node);
            assert(out@ =~= old(out)@ + render_node(*node, number));
        },
        BlockType::NumberedListItem { text } => {
            push_numbered(out, node, text, ctx);
            assert(out@ =~= old(out)@ + render_node(*node, number));
        },
        BlockType::ToDo { text, checked } => {
            match checked {
                Some(true) => push_line_block(out, "- [x] ", text),
                _ => push_line_block(out, "- [ ] ", text),
            }
            assert(out@ =~= old(out)@ + render_node(*node, number));
        },
        BlockType::Toggle { text } => {
            push_line_block(out, "- ", text);
            push_indented_children(out, node);
            assert(out@ =~= old(out)@ + render_node(*node, number));
        },
        BlockType::Quote { text } => {
            push_quote(out, node, text);
            assert(out@ =~= old(out)@ + render_node(*node, number));
        },
        BlockType::Callout { text } => {
            push_callout(out, node, text);
            assert(out@ =~= old(out)@ + render_node(*node, number));
        },
        BlockType::Code { text, language } => {
            push_code(out, text, language);
            assert(out@ =~= old(out)@ + render_node(*node, number));
        },
        BlockType::Image { file } => {
            push_file_block(out, file);
            assert(out@ =~= old(out)@ + render_node(*node, number));
        },
        BlockType::Video { file } => {
            push_file_block(out, file);
            assert(out@ =~= old(out)@ + render_node(*node, number));
        },
        BlockType::Bookmark { url } => {
            push_link_block(out, url);
            assert(out@ =~= old(out)@ + render_node(*node, number));
        },
        BlockType::LinkPreview { url } => {
            push_link_block(out, url);
            assert(out@ =~= old(out)@ + render_node(*node, number));
        },
        BlockType::Divider => {
            push_str(out, "---\n\n");
            assert(out@ =~= old(out)@ + render_node(*node, number));
        },
        BlockType::Embed { url } => {
            push_embed(out, url);
            assert(out@ =~= old(out)@ + render_node(*node, number));
        },
        BlockType::Table => {
            push_table_block(out, node);
            assert(out@ =~= old(out)@ + render_node(*node, number));
        },
        BlockType::TableRow { .. } => {
            push_children(out, node);
            assert(out@ =~= old(out)@ + render_node(*node, number));
        },
        BlockType::Unsupported => {
            push_children(out, node);
            assert(out@ =~= old(out)@ + render_node(*node, number));
        },
    }
}

/// Appends the Markdown of a sibling sequence, numbering each run of
/// numbered-list items from one.
pub fn render_blocks_into(out: &mut Vec<char>, nodes: &Vec<BlockNode>)
    ensures
        final(out)@ == old(out)@ + render_all(nodes@),
    decreases *nodes, 0int,
{
    let mut ctx = ListContext::new();
    let mut i: usize = 0;
    assert(out@ =~= old(out)@ + render_seq(nodes@, 0));
    while i < nodes.len()
        invariant
            i <= nodes@.len(),
            ctx.wf(),
            ctx.current() <= i,
            i == 0 ==> ctx@ == seq![0usize],
            i > 0 && is_numbered(nodes@[i - 1].block.block_type) ==> ctx.current()
                == run_len(nodes@, i - 1),
            out@ == old(out)@ + render_seq(nodes@, i as int),
        decreases nodes@.len() - i,
    {
        let node = &nodes[i];
        let numbered = matches!(node.block.block_type, BlockType::NumberedListItem { .. });
        if numbered && i > 0 && !matches!(
            nodes[i - 1].block.block_type,
            BlockType::NumberedListItem { .. }
        ) {
            ctx = ListContext::new();
        }
        let ghost before = ctx.current();
        proof {
            if !numbered {
                lemma_number_unused(*node, (before + 1) as nat, run_len(nodes@, i as int));
            }
        }
        render_block_into(out, node, &mut ctx);
        i = i + 1;
        assert(out@ =~= old(out)@ + render_seq(nodes@, i as int));
    }
}

/// Renders one block with the numbering context of its sibling sequence.
pub fn render_block(node: &BlockNode, ctx: &mut ListContext) -> (r: String)
    requires
        old(ctx).wf(),
        old(ctx).current() < usize::MAX,
    ensures
        r@ == render_node(*node, (old(ctx).current() + 1) as nat),
        final(ctx).wf(),
        final(ctx)@ == if is_numbered(node.block.block_type) {
            old(ctx)@.update(old(ctx)@.len() - 1, (old(ctx).current() + 1) as usize)
        } else {
            old(ctx)@
        },
{
    let mut out: Vec<char> = Vec::new();
    render_block_into(&mut out, node, ctx);
    assert(out@ =~= render_node(*node, (old(ctx).current() + 1) as nat));
    string_of(out.as_slice())
}

/// Renders a sibling sequence of blocks, and their descendants, as one
/// Markdown document.
pub fn render_blocks(nodes: &Vec<BlockNode>) -> (r: String)
    ensures
        r@ == render_all(nodes@),
{
    let mut out: Vec<char> = Vec::new();
    render_blocks_into(&mut out, nodes);
    assert(out@ =~= render_all(nodes@));
    string_of(out.as_slice())
}

/// Numbering restarts: a numbered item that comes first among its siblings,
/// or right after a block that is not a numbered item, is numbered one; one
/// right after another numbered item is numbered one more than it; and the
/// siblings' Markdown is each sibling's Markdown with that number, in order.
pub proof fn lemma_numbering_restart(nodes: Seq<BlockNode>, i: int)
    requires
        0 <= i < nodes.len(),
    ensures
        (i == 0 || !is_numbered(nodes[i - 1].block.block_type)) ==> run_len(nodes, i) == 1,
        (i > 0 && is_numbered(nodes[i - 1].block.block_type)) ==> run_len(nodes, i) == run_len(
            nodes,
            i - 1,
        ) + 1,
        render_seq(nodes, i + 1) == render_seq(nodes, i) + render_node(nodes[i], run_len(nodes, i)),
{
}

/// The numbers of siblings depend on the kinds of the siblings alone, not on
/// what their children hold.
pub proof fn lemma_numbers_ignore_children(a: Seq<BlockNode>, b: Seq<BlockNode>, i: int)
    requires
        a.len() == b.len(),
        0 <= i < a.len(),
        forall|j: int| 0 <= j < a.len() ==> #[trigger] a[j].block.block_type == b[j].block.block_type,
    ensures
        run_len(a, i) == run_len(b, i),
    decreases i,
{
    if i > 0 {
        lemma_numbers_ignore_children(a, b, i - 1);
    }
}

/// Nested numbered lists: a numbered item's children are rendered as a sibling
/// sequence of their own, whose first numbered item is one whatever the
/// parent's number; the parent's number shows only in its own marker.
pub proof fn lemma_nested_numbering(node: BlockNode, n: nat)
    requires
        is_numbered(node.block.block_type),
    ensures
        children_markdown(node) == render_all(kids(node)),
        kids(node).len() > 0 ==> run_len(kids(node), 0) == 1,
        match node.block.block_type {
            BlockType::NumberedListItem { text } => render_node(node, n) == decimal(n) + seq![
                '.',
                ' ',
            ] + format_runs(text@) + seq!['\n'] + indented(render_all(kids(node))),
            _ => false,
        },
{
}

/// A block without children never renders children: its Markdown is the same
/// whatever its list of children holds.
pub proof fn lemma_childless_block(node: BlockNode, other: BlockNode, n: nat)
    requires
        !node.block.has_children,
        other.block == node.block,
    ensures
        children_markdown(node) == Seq::<char>::empty(),
        render_node(node, n) == render_node(other, n),
{
    assert(kids(node) =~= kids(other));
}

/// A table without children renders as a single blank line.
pub proof fn lemma_empty_table(node: BlockNode, n: nat)
    requires
        node.block.block_type is Table,
        kids(node).len() == 0,
    ensures
        render_node(node, n) == seq!['\n'],
{
    assert(table_markdown(kids(node)) =~= Seq::<char>::empty());
    assert(Seq::<char>::empty() + seq!['\n'] =~= seq!['\n']);
}

/// Whether two trees differ at most in the children lists of blocks that say
/// they have no children: equal blocks, and where a block has children,
/// as many children that in turn differ at most so.
pub open spec fn same_but_unread(a: BlockNode, b: BlockNode) -> bool
    decreases a, 1int,
{
    a.block == b.block && (a.block.has_children ==> a.children@.len() == b.children@.len()
        && all_same_but_unread(a.children@, b.children@, a.children@.len() as int))
}

/// `same_but_unread` holds of the first `n` pairs of siblings.
pub open spec fn all_same_but_unread(xs: Seq<BlockNode>, ys: Seq<BlockNode>, n: int) -> bool
    decreases xs, n,
{
    if n <= 0 || n > xs.len() {
        true
    } else {
        all_same_but_unread(xs, ys, n - 1) && same_but_unread(xs[n - 1], ys[n - 1])
    }
}

proof fn lemma_pair_at(xs: Seq<BlockNode>, ys: Seq<BlockNode>, n: int, i: int)
    requires
        all_same_but_unread(xs, ys, n),
        0 <= i < n <= xs.len(),
    ensures
        same_but_unread(xs[i], ys[i]),
        xs[i].block == ys[i].block,
    decreases n,
{
    if i < n - 1 {
        lemma_pair_at(xs, ys, n - 1, i);
    }
}

proof fn lemma_run_len_same(xs: Seq<BlockNode>, ys: Seq<BlockNode>, n: int, i: int)
    requires
        all_same_but_unread(xs, ys, n),
        0 <= i < n <= xs.len(),
    ensures
        run_len(xs, i) == run_len(ys, i),
    decreases i,
{
    if i > 0 {
        lemma_pair_at(xs, ys, n, i - 1);
        lemma_run_len_same(xs, ys, n, i - 1);
    }
}

proof fn lemma_data_rows_same(xs: Seq<BlockNode>, ys: Seq<BlockNode>, n: int, k: int)
    requires
        xs.len() == ys.len(),
        all_same_but_unread(xs, ys, n),
        0 <= k <= n <= xs.len(),
    ensures
        data_rows(xs, k) == data_rows(ys, k),
    decreases k,
{
    if k > 1 {
        lemma_data_rows_same(xs, ys, n, k - 1);
        lemma_pair_at(xs, ys, n, k - 1);
    }
}

proof fn lemma_same_node(a: BlockNode, b: BlockNode, n: nat)
    requires
        same_but_unread(a, b),
    ensures
        children_markdown(a) == children_markdown(b),
        render_node(a, n) == render_node(b, n),
    decreases a, 2int,
{
    if a.block.has_children {
        let xs = a.children@;
        let ys = b.children@;
        lemma_same_seq(xs, ys, xs.len() as int);
        if xs.len() > 0 {
            lemma_pair_at(xs, ys, xs.len() as int, 0);
            lemma_data_rows_same(xs, ys, xs.len() as int, xs.len() as int);
        }
        assert(table_markdown(kids(a)) == table_markdown(kids(b)));
    } else {
        assert(kids(a) =~= kids(b));
    }
}

proof fn lemma_same_seq(xs: Seq<BlockNode>, ys: Seq<BlockNode>, k: int)
    requires
        xs.len() == ys.len(),
        all_same_but_unread(xs, ys, xs.len() as int),
        0 <= k <= xs.len(),
    ensures
        render_seq(xs, k) == render_seq(ys, k),
    decreases xs, k,
{
    if k > 0 {
        lemma_same_seq(xs, ys, k - 1);
        lemma_pair_at(xs, ys, xs.len() as int, k - 1);
        lemma_run_len_same(xs, ys, xs.len() as int, k - 1);
        lemma_same_node(xs[k - 1], ys[k - 1], run_len(xs, k - 1));
    }
}

/// A block without children never renders children, wherever it stands in
/// the tree: two sibling sequences that differ only in the children lists of
/// blocks without children render the same.
pub proof fn lemma_childless_anywhere(xs: Seq<BlockNode>, ys: Seq<BlockNode>)
    requires
        xs.len() == ys.len(),
        all_same_but_unread(xs, ys, xs.len() as int),
    ensures
        render_all(xs) == render_all(ys),
{
    lemma_same_seq(xs, ys, xs.len() as int);
}

} // verus!
