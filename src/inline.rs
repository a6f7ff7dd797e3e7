//! Inline styled text runs and their Markdown form.
use vstd::prelude::*;
use crate::text::{chars_of, push_all, push_str, string_of};

verus! {

/// The styles of a run that reach the output.
#[derive(Clone, Copy, Debug, PartialEq, Eq, Structural)]
pub struct Annotations {
    pub bold: bool,
    pub italic: bool,
    pub strikethrough: bool,
    pub code: bool,
}

impl Annotations {
    /// No style at all.
    pub fn plain() -> (r: Annotations)
        ensures
            !r.bold && !r.italic && !r.strikethrough && !r.code,
    {
        Annotations { bold: false, italic: false, strikethrough: false, code: false }
    }
}

/// One span of inline text.
#[derive(Clone, Debug)]
pub enum RichText {
    /// Plain text, possibly a hyperlink.
    Text { text: String, link: Option<String>, annotations: Annotations },
    /// A mention, shown by its display text.
    Mention { plain_text: String, annotations: Annotations },
    /// An equation, shown by its display text.
    Equation { plain_text: String, annotations: Annotations },
    /// A run with nothing in it.
    Empty,
}

/// The text of a run before styling: a link becomes `[text](url)`.
pub open spec fn display_text(r: RichText) -> Seq<char> {
    match r {
        RichText::Text { text, link, .. } => match link {
            Some(url) => seq!['['] + text@ + seq![']', '('] + url@ + seq![')'],
            None => text@,
        },
        RichText::Mention { plain_text, .. } => plain_text@,
        RichText::Equation { plain_text, .. } => plain_text@,
        RichText::Empty => Seq::empty(),
    }
}

/// `t` wrapped in `m` on both sides.
pub open spec fn wrap(m: Seq<char>, t: Seq<char>) -> Seq<char> {
    m + t + m
}

/// The styles applied innermost first: bold, italic, strikethrough, code.
pub open spec fn annotate(t: Seq<char>, a: Annotations) -> Seq<char> {
    let b = if a.bold { wrap(seq!['*', '*'], t) } else { t };
    let i = if a.italic { wrap(seq!['*'], b) } else { b };
    let s = if a.strikethrough { wrap(seq!['~', '~'], i) } else { i };
    if a.code { wrap(seq!['`'], s) } else { s }
}

/// The Markdown of one run.
pub open spec fn run_markdown(r: RichText) -> Seq<char> {
    match r {
        RichText::Text { annotations, .. } => annotate(display_text(r), annotations),
        RichText::Mention { annotations, .. } => annotate(display_text(r), annotations),
        RichText::Equation { annotations, .. } => annotate(display_text(r), annotations),
        RichText::Empty => Seq::empty(),
    }
}

/// The Markdown of a sequence of runs: each run's Markdown, concatenated.
pub open spec fn format_runs(rs: Seq<RichText>) -> Seq<char>
    decreases rs.len(),
{
    if rs.len() == 0 {
        Seq::empty()
    } else {
        format_runs(rs.drop_last()) + run_markdown(rs.last())
    }
}

fn wrapped(m: &str, t: Vec<char>) -> (r: Vec<char>)
    ensures
        r@ == wrap(m@, t@),
{
    let mut r: Vec<char> = Vec::new();
    push_str(&mut r, m);
    push_all(&mut r, t.as_slice());
    push_str(&mut r, m);
    r
}

/// Returns `annotate(t, a)`.
pub fn apply_annotations(t: Vec<char>, a: Annotations) -> (r: Vec<char>)
    ensures
        r@ == annotate(t@, a),
{
    proof {
        reveal_strlit("**");
        reveal_strlit("*");
        reveal_strlit("~~");
        reveal_strlit("`");
    }
    let b = if a.bold { wrapped("**", t) } else { t };
    let i = if a.italic { wrapped("*", b) } else { b };
    let s = if a.strikethrough { wrapped("~~", i) } else { i };
    if a.code { wrapped("`", s) } else { s }
}

/// Returns `run_markdown(r)`.
pub fn run_to_markdown(r: &RichText) -> (out: Vec<char>)
    ensures
        out@ == run_markdown(*r),
{
    match r {
        RichText::Text { text, link, annotations } => {
            let mut t: Vec<char> = Vec::new();
            match link {
                Some(url) => {
                    t.push('[');
                    push_str(&mut t, text.as_str());
                    t.push(']');
                    t.push('(');
                    push_str(&mut t, url.as_str());
                    t.push(')');
                    assert(t@ =~= display_text(*r));
                },
                None => {
                    push_str(&mut t, text.as_str());
                },
            }
            apply_annotations(t, *annotations)
        },
        RichText::Mention { plain_text, annotations } => {
            apply_annotations(chars_of(plain_text.as_str()), *annotations)
        },
        RichText::Equation { plain_text, annotations } => {
            apply_annotations(chars_of(plain_text.as_str()), *annotations)
        },
        RichText::Empty => Vec::new(),
    }
}

/// Appends `format_runs(rs)` to `out`.
pub fn push_runs(out: &mut Vec<char>, rs: &Vec<RichText>)
    ensures
        final(out)@ == old(out)@ + format_runs(rs@),
{
    let mut i: usize = 0;
    assert(rs@.subrange(0, 0) =~= Seq::<RichText>::empty());
    while i < rs.len()
        invariant
            i <= rs@.len(),
            out@ == old(out)@ + format_runs(rs@.subrange(0, i as int)),
        decreases rs@.len() - i,
    {
        let m = run_to_markdown(&rs[i]);
        push_all(out, m.as_slice());
        i = i + 1;
        assert(rs@.subrange(0, i as int).drop_last() =~= rs@.subrange(0, i - 1));
        assert(out@ =~= old(out)@ + format_runs(rs@.subrange(0, i as int)));
    }
    assert(rs@.subrange(0, i as int) =~= rs@);
}

/// Returns `format_runs(rs)` as chars.
pub fn runs_to_chars(rs: &Vec<RichText>) -> (r: Vec<char>)
    ensures
        r@ == format_runs(rs@),
{
    let mut r: Vec<char> = Vec::new();
    push_runs(&mut r, rs);
    assert(r@ =~= format_runs(rs@));
    r
}

/// Renders styled runs as inline Markdown: each run's text (a link as
/// `[text](url)`), wrapped bold, then italic, then strikethrough, then code,
/// all runs concatenated with nothing between them.
pub fn rich_text_to_markdown(rs: &Vec<RichText>) -> (r: String)
    ensures
        r@ == format_runs(rs@),
{
    let v = runs_to_chars(rs);
    string_of(v.as_slice())
}

/// Formatting no runs gives the empty text.
pub proof fn lemma_format_empty()
    ensures
        format_runs(Seq::empty()) == Seq::<char>::empty(),
{
}

/// A run with all four styles is `code(strike(italic(bold(text))))`.
pub proof fn lemma_annotation_nesting(r: RichText)
    requires
        r != RichText::Empty,
        ({
            let a = match r {
                RichText::Text { annotations, .. } => annotations,
                RichText::Mention { annotations, .. } => annotations,
                RichText::Equation { annotations, .. } => annotations,
                RichText::Empty => Annotations { bold: false, italic: false, strikethrough: false, code: false },
            };
            a.bold && a.italic && a.strikethrough && a.code
        }),
    ensures
        run_markdown(r) == wrap(
            seq!['`'],
            wrap(seq!['~', '~'], wrap(seq!['*'], wrap(seq!['*', '*'], display_text(r)))),
        ),
{
}

} // verus!
