//! Document titles and the file names made from them.
use vstd::prelude::*;
use crate::text::{chars_of, is_space, push_str, space_char, string_of};

verus! {

/// A character that may not stand in a file name: `/ \ : * ? " < > |`.
pub open spec fn is_invalid_char(c: char) -> bool {
    c == '/' || c == '\\' || c == ':' || c == '*' || c == '?' || c == '"' || c == '<' || c
        == '>' || c == '|'
}

/// `s` without the characters that may not stand in a file name.
pub open spec fn drop_invalid(s: Seq<char>) -> Seq<char>
    decreases s.len(),
{
    if s.len() == 0 {
        Seq::empty()
    } else if is_invalid_char(s.last()) {
        drop_invalid(s.drop_last())
    } else {
        drop_invalid(s.drop_last()).push(s.last())
    }
}

/// `s` with each maximal run of whitespace replaced by one space.
pub open spec fn squeeze_spaces(s: Seq<char>) -> Seq<char>
    decreases s.len(),
{
    if s.len() == 0 {
        Seq::empty()
    } else if !is_space(s.last()) {
        squeeze_spaces(s.drop_last()).push(s.last())
    } else if s.len() >= 2 && is_space(s[s.len() - 2]) {
        squeeze_spaces(s.drop_last())
    } else {
        squeeze_spaces(s.drop_last()).push(' ')
    }
}

/// Characters that may not stand in a file name, as a regex class.
pub open spec fn invalid_chars_pattern() -> Seq<char> {
    "[/\\\\:*?\"<>|]"@
}

/// A run of whitespace (`\s` is Unicode `White_Space`).
pub open spec fn spaces_pattern() -> Seq<char> {
    "\\s+"@
}

/// Relies on `regex::Regex::new`, which compiles both patterns admitted here,
/// and `Regex::replace_all`, which replaces every leftmost non-overlapping
/// match: the class pattern with an empty replacement deletes each character
/// of the class; `\s+` with a space makes each maximal whitespace run one space.
#[verifier::external_body]
fn replace_all(pattern: &str, text: &str, rep: &str) -> (r: String)
    requires
        (pattern@ == invalid_chars_pattern() && rep@ == Seq::<char>::empty()) || (pattern@
            == spaces_pattern() && rep@ == seq![' ']),
    ensures
        pattern@ == invalid_chars_pattern() ==> r@ == drop_invalid(text@),
        pattern@ == spaces_pattern() ==> r@ == squeeze_spaces(text@),
{
    let re = regex::Regex::new(pattern).expect("the pattern is valid");
    re.replace_all(text, rep).into_owned()
}

/// `s` without its leading whitespace.
pub open spec fn trim_start(s: Seq<char>) -> Seq<char>
    decreases s.len(),
{
    if s.len() > 0 && is_space(s[0]) {
        trim_start(s.skip(1))
    } else {
        s
    }
}

/// `s` without its trailing whitespace.
pub open spec fn trim_end(s: Seq<char>) -> Seq<char>
    decreases s.len(),
{
    if s.len() > 0 && is_space(s.last()) {
        trim_end(s.drop_last())
    } else {
        s
    }
}

/// `s` without leading or trailing whitespace.
pub open spec fn trim(s: Seq<char>) -> Seq<char> {
    trim_end(trim_start(s))
}

/// Returns `trim(s)`.
pub fn trim_spaces(s: &Vec<char>) -> (r: Vec<char>)
    ensures
        r@ == trim(s@),
{
    let mut a: usize = 0;
    assert(s@.skip(0) =~= s@);
    while a < s.len() && space_char(s[a])
        invariant
            a <= s@.len(),
            trim_start(s@) == trim_start(s@.skip(a as int)),
        decreases s@.len() - a,
    {
        assert(s@.skip(a as int).skip(1) =~= s@.skip(a + 1));
        a = a + 1;
    }
    let ghost t = s@.skip(a as int);
    assert(trim_start(t) == t);
    let mut b: usize = s.len();
    assert(t.subrange(0, (b - a) as int) =~= t);
    while b > a && space_char(s[b - 1])
        invariant
            a <= b <= s@.len(),
            t == s@.skip(a as int),
            trim_end(t) == trim_end(t.subrange(0, (b - a) as int)),
        decreases b,
    {
        assert(t.subrange(0, (b - a) as int).drop_last() =~= t.subrange(0, (b - 1 - a) as int));
        b = b - 1;
    }
    let mut r: Vec<char> = Vec::new();
    let mut i: usize = a;
    while i < b
        invariant
            a <= i <= b <= s@.len(),
            r@ == s@.subrange(a as int, i as int),
        decreases b - i,
    {
        r.push(s[i]);
        i = i + 1;
        assert(r@ =~= s@.subrange(a as int, i as int));
    }
    assert(r@ =~= t.subrange(0, (b - a) as int));
    r
}

/// The file name for a title: characters that may not stand in a file name
/// removed, each run of whitespace made one space, and the ends trimmed.
pub open spec fn sanitized(title: Seq<char>) -> Seq<char> {
    trim(squeeze_spaces(drop_invalid(title)))
}

/// Makes a title usable as a file name.
pub fn sanitize_filename(filename: &str) -> (r: String)
    ensures
        r@ == sanitized(filename@),
{
    proof {
        reveal_strlit("");
        reveal_strlit(" ");
        assert(""@ =~= Seq::<char>::empty());
        assert(" "@ =~= seq![' ']);
        reveal_strlit("[/\\\\:*?\"<>|]");
        reveal_strlit("\\s+");
        assert(invalid_chars_pattern() != spaces_pattern()) by {
            assert(invalid_chars_pattern().len() != spaces_pattern().len());
        }
    }
    let removed = replace_all("[/\\\\:*?\"<>|]", filename, "");
    let spaced = replace_all("\\s+", removed.as_str(), " ");
    let t = trim_spaces(&chars_of(spaced.as_str()));
    string_of(t.as_slice())
}

/// The plain texts of a title property, joined.
pub open spec fn joined(parts: Seq<String>) -> Seq<char>
    decreases parts.len(),
{
    if parts.len() == 0 {
        Seq::empty()
    } else {
        joined(parts.drop_last()) + parts.last()@
    }
}

/// The first title, among the title properties, that is not empty.
pub open spec fn first_title(props: Seq<Vec<String>>) -> Option<Seq<char>>
    decreases props.len(),
{
    if props.len() == 0 {
        None
    } else if joined(props[0]@).len() > 0 {
        Some(joined(props[0]@))
    } else {
        first_title(props.skip(1))
    }
}

fn join_parts(parts: &Vec<String>) -> (r: Vec<char>)
    ensures
        r@ == joined(parts@),
{
    let mut r: Vec<char> = Vec::new();
    let mut i: usize = 0;
    assert(parts@.subrange(0, 0) =~= Seq::<String>::empty());
    while i < parts.len()
        invariant
            i <= parts@.len(),
            r@ == joined(parts@.subrange(0, i as int)),
        decreases parts@.len() - i,
    {
        push_str(&mut r, parts[i].as_str());
        i = i + 1;
        assert(parts@.subrange(0, i as int).drop_last() =~= parts@.subrange(0, i - 1));
    }
    assert(parts@.subrange(0, i as int) =~= parts@);
    r
}

/// The page's title, from the plain texts of each of its title properties in
/// order: the first one that is not empty once joined.
pub fn extract_page_title(title_props: &Vec<Vec<String>>) -> (r: Option<String>)
    ensures
        match r {
            Some(s) => first_title(title_props@) == Some(s@),
            None => first_title(title_props@) is None,
        },
{
    let mut i: usize = 0;
    assert(title_props@.skip(0) =~= title_props@);
    while i < title_props.len()
        invariant
            i <= title_props@.len(),
            first_title(title_props@) == first_title(title_props@.skip(i as int)),
        decreases title_props@.len() - i,
    {
        let t = join_parts(&title_props[i]);
        assert(title_props@.skip(i as int)[0] == title_props@[i as int]);
        if t.len() > 0 {
            return Some(string_of(t.as_slice()));
        }
        assert(title_props@.skip(i as int).skip(1) =~= title_props@.skip(i + 1));
        i = i + 1;
    }
    None
}

/// The title used for a page that has none.
pub open spec fn untitled() -> Seq<char> {
    "Untitled"@
}

/// The page's title, or `Untitled` when it has none.
pub fn title_or_untitled(title: Option<String>) -> (r: String)
    ensures
        r@ == match title {
            Some(t) => t@,
            None => untitled(),
        },
{
    match title {
        Some(t) => t,
        None => {
            let mut v: Vec<char> = Vec::new();
            push_str(&mut v, "Untitled");
            string_of(v.as_slice())
        },
    }
}

/// The name of the file a page's document is written to: the sanitized title
/// and `.md`.
pub fn file_name_for(title: &str) -> (r: String)
    ensures
        r@ == sanitized(title@) + ".md"@,
{
    let name = sanitize_filename(title);
    let mut v = chars_of(name.as_str());
    push_str(&mut v, ".md");
    string_of(v.as_slice())
}

/// A document: its header, then its body.
pub fn document(frontmatter: &str, content: &str) -> (r: String)
    ensures
        r@ == frontmatter@ + content@,
{
    let mut v = chars_of(frontmatter);
    push_str(&mut v, content);
    string_of(v.as_slice())
}

/// No character of `s` is one that may not stand in a file name.
pub open spec fn all_valid(s: Seq<char>) -> bool {
    forall|i: int| 0 <= i < s.len() ==> !is_invalid_char(#[trigger] s[i])
}

proof fn lemma_drop_invalid_valid(s: Seq<char>)
    ensures
        all_valid(drop_invalid(s)),
    decreases s.len(),
{
    if s.len() > 0 {
        lemma_drop_invalid_valid(s.drop_last());
        let r = drop_invalid(s.drop_last());
        assert(forall|i: int| 0 <= i < r.len() ==> r.push(s.last())[i] == r[i]);
    }
}

proof fn lemma_squeeze_valid(s: Seq<char>)
    requires
        all_valid(s),
    ensures
        all_valid(squeeze_spaces(s)),
    decreases s.len(),
{
    if s.len() > 0 {
        assert(all_valid(s.drop_last())) by {
            assert(forall|i: int| 0 <= i < s.len() - 1 ==> s.drop_last()[i] == s[i]);
        }
        lemma_squeeze_valid(s.drop_last());
        let r = squeeze_spaces(s.drop_last());
        assert(forall|i: int| 0 <= i < r.len() ==> r.push(s.last())[i] == r[i]);
        assert(forall|i: int| 0 <= i < r.len() ==> r.push(' ')[i] == r[i]);
    }
}

proof fn lemma_trim_start_suffix(s: Seq<char>)
    ensures
        exists|k: int| 0 <= k <= s.len() && trim_start(s) == s.skip(k),
        trim_start(s).len() > 0 ==> !is_space(trim_start(s)[0]),
    decreases s.len(),
{
    if s.len() > 0 && is_space(s[0]) {
        lemma_trim_start_suffix(s.skip(1));
        let k = choose|k: int| 0 <= k <= s.skip(1).len() && trim_start(s.skip(1)) == s.skip(1).skip(k);
        assert(s.skip(1).skip(k) =~= s.skip(k + 1));
    } else {
        assert(s.skip(0) =~= s);
    }
}

proof fn lemma_trim_end_prefix(s: Seq<char>)
    ensures
        exists|k: int| 0 <= k <= s.len() && trim_end(s) == s.subrange(0, k),
        trim_end(s).len() > 0 ==> !is_space(trim_end(s).last()),
    decreases s.len(),
{
    if s.len() > 0 && is_space(s.last()) {
        lemma_trim_end_prefix(s.drop_last());
        let k = choose|k: int| 0 <= k <= s.drop_last().len() && trim_end(s.drop_last()) == s.drop_last().subrange(0, k);
        assert(s.drop_last().subrange(0, k) =~= s.subrange(0, k));
    } else {
        assert(s.subrange(0, s.len() as int) =~= s);
    }
}

/// A sanitized file name holds no character that may not stand in a file
/// name (so no path separator), and neither starts nor ends with whitespace.
pub proof fn lemma_sanitized_is_clean(title: Seq<char>)
    ensures
        all_valid(sanitized(title)),
        sanitized(title).len() > 0 ==> !is_space(sanitized(title)[0]) && !is_space(
            sanitized(title).last(),
        ),
{
    let q = squeeze_spaces(drop_invalid(title));
    lemma_drop_invalid_valid(title);
    lemma_squeeze_valid(drop_invalid(title));
    lemma_trim_start_suffix(q);
    let k = choose|k: int| 0 <= k <= q.len() && trim_start(q) == q.skip(k);
    let t = trim_start(q);
    assert(all_valid(t)) by {
        assert(forall|i: int| 0 <= i < t.len() ==> t[i] == q[i + k]);
    }
    lemma_trim_end_prefix(t);
    let j = choose|j: int| 0 <= j <= t.len() && trim_end(t) == t.subrange(0, j);
    let r = trim_end(t);
    assert(forall|i: int| 0 <= i < r.len() ==> r[i] == t[i]);
}

} // verus!
