//! Character-level building blocks: literal appends, decimal numbers,
//! whitespace, line splitting and line prefixing.
use vstd::prelude::*;

verus! {

/// Relies on `str::chars` collected into a `Vec`: one entry per char, in order.
#[verifier::external_body]
pub(crate) fn chars_of(s: &str) -> (r: Vec<char>)
    ensures
        r@ == s@,
{
    s.chars().collect()
}

/// Relies on collecting a slice of chars into a `String`: the same chars, in order.
#[verifier::external_body]
pub(crate) fn string_of(v: &[char]) -> (r: String)
    ensures
        r@ == v@,
{
    v.iter().collect()
}

/// Appends every char of `v` to `out`.
pub fn push_all(out: &mut Vec<char>, v: &[char])
    ensures
        final(out)@ == old(out)@ + v@,
{
    let mut i: usize = 0;
    while i < v.len()
        invariant
            i <= v@.len(),
            out@ == old(out)@ + v@.subrange(0, i as int),
        decreases v@.len() - i,
    {
        out.push(v[i]);
        i = i + 1;
        assert(v@.subrange(0, i as int) =~= v@.subrange(0, i - 1) + seq![v@[i - 1]]);
    }
    assert(v@.subrange(0, i as int) =~= v@);
}

/// Appends the chars of `s` to `out`.
pub fn push_str(out: &mut Vec<char>, s: &str)
    ensures
        final(out)@ == old(out)@ + s@,
{
    let cs = chars_of(s);
    push_all(out, cs.as_slice());
}

/// The digit char for a value below ten.
pub open spec fn digit_char(d: nat) -> char {
    if d == 0 { '0' } else if d == 1 { '1' } else if d == 2 { '2' } else if d == 3 { '3' }
    else if d == 4 { '4' } else if d == 5 { '5' } else if d == 6 { '6' } else if d == 7 { '7' }
    else if d == 8 { '8' } else { '9' }
}

/// The decimal notation of `n`, without leading zeros.
pub open spec fn decimal(n: nat) -> Seq<char>
    decreases n,
{
    if n < 10 {
        seq![digit_char(n)]
    } else {
        decimal(n / 10).push(digit_char(n % 10))
    }
}

pub(crate) fn digit(d: usize) -> (c: char)
    requires
        d < 10,
    ensures
        c == digit_char(d as nat),
{
    if d == 0 { '0' } else if d == 1 { '1' } else if d == 2 { '2' } else if d == 3 { '3' }
    else if d == 4 { '4' } else if d == 5 { '5' } else if d == 6 { '6' } else if d == 7 { '7' }
    else if d == 8 { '8' } else { '9' }
}

/// Appends the decimal notation of `n` to `out`.
pub fn push_decimal(out: &mut Vec<char>, n: usize)
    ensures
        final(out)@ == old(out)@ + decimal(n as nat),
    decreases n,
{
    if n >= 10 {
        push_decimal(out, n / 10);
    }
    out.push(digit(n % 10));
}

/// Unicode `White_Space`, the set that `char::is_whitespace` tests.
pub open spec fn is_space(c: char) -> bool {
    let u = c as u32;
    (0x9 <= u && u <= 0xd) || u == 0x20 || u == 0x85 || u == 0xa0 || u == 0x1680
        || (0x2000 <= u && u <= 0x200a) || u == 0x2028 || u == 0x2029 || u == 0x202f
        || u == 0x205f || u == 0x3000
}

/// Whether the text holds nothing but whitespace (what is empty once trimmed).
pub open spec fn is_blank(s: Seq<char>) -> bool {
    forall|i: int| 0 <= i < s.len() ==> is_space(#[trigger] s[i])
}

/// Tests whether `c` is whitespace.
pub fn space_char(c: char) -> (r: bool)
    ensures
        r == is_space(c),
{
    let u = c as u32;
    (0x9 <= u && u <= 0xd) || u == 0x20 || u == 0x85 || u == 0xa0 || u == 0x1680
        || (0x2000 <= u && u <= 0x200a) || u == 0x2028 || u == 0x2029 || u == 0x202f
        || u == 0x205f || u == 0x3000
}

/// Tests whether `s` holds nothing but whitespace.
pub fn blank(s: &Vec<char>) -> (r: bool)
    ensures
        r == is_blank(s@),
{
    let mut i: usize = 0;
    while i < s.len()
        invariant
            i <= s@.len(),
            forall|j: int| 0 <= j < i ==> is_space(#[trigger] s@[j]),
        decreases s@.len() - i,
    {
        if !space_char(s[i]) {
            return false;
        }
        i = i + 1;
    }
    true
}

/// The pieces of `s` between newlines; there is always at least one.
pub open spec fn split_nl(s: Seq<char>) -> Seq<Seq<char>>
    decreases s.len(),
{
    if s.len() == 0 {
        seq![Seq::empty()]
    } else {
        let r = split_nl(s.drop_last());
        if s.last() == '\n' {
            r.push(Seq::empty())
        } else {
            r.update(r.len() - 1, r.last().push(s.last()))
        }
    }
}

/// The lines of `s`: no line for empty text, and none after a final newline.
pub open spec fn lines(s: Seq<char>) -> Seq<Seq<char>> {
    if s.len() == 0 {
        Seq::empty()
    } else if s.last() == '\n' {
        split_nl(s.drop_last())
    } else {
        split_nl(s)
    }
}

/// Each line with the marker `p` before it and a newline after it.
pub open spec fn prefixed(p: Seq<char>, ls: Seq<Seq<char>>) -> Seq<char>
    decreases ls.len(),
{
    if ls.len() == 0 {
        Seq::empty()
    } else {
        prefixed(p, ls.drop_last()) + p + ls.last() + seq!['\n']
    }
}

/// The lines, leaving out each one equal to `t`.
pub open spec fn drop_equal(ls: Seq<Seq<char>>, t: Seq<char>) -> Seq<Seq<char>>
    decreases ls.len(),
{
    if ls.len() == 0 {
        Seq::empty()
    } else if ls.last() == t {
        drop_equal(ls.drop_last(), t)
    } else {
        drop_equal(ls.drop_last(), t).push(ls.last())
    }
}

/// Every blank line pair `\n\n` replaced by one `\n`, scanning left to right.
pub open spec fn collapse(s: Seq<char>) -> Seq<char>
    decreases s.len(),
{
    if s.len() < 2 {
        s
    } else if s[0] == '\n' && s[1] == '\n' {
        seq!['\n'] + collapse(s.skip(2))
    } else {
        seq![s[0]] + collapse(s.skip(1))
    }
}

proof fn lemma_split_nonempty(s: Seq<char>)
    ensures
        split_nl(s).len() >= 1,
    decreases s.len(),
{
    if s.len() > 0 {
        lemma_split_nonempty(s.drop_last());
    }
}

/// Returns `collapse(s)`.
pub fn collapse_blank_lines(s: &Vec<char>) -> (r: Vec<char>)
    ensures
        r@ == collapse(s@),
{
    let mut out: Vec<char> = Vec::new();
    let mut i: usize = 0;
    assert(s@.skip(0) =~= s@);
    while i < s.len()
        invariant
            i <= s@.len(),
            out@ + collapse(s@.skip(i as int)) == collapse(s@),
        decreases s@.len() - i,
    {
        let ghost rest = s@.skip(i as int);
        if i + 1 < s.len() && s[i] == '\n' && s[i + 1] == '\n' {
            assert(rest.skip(2) =~= s@.skip(i + 2));
            out.push('\n');
            i = i + 2;
            assert(out@ + collapse(s@.skip(i as int)) =~= collapse(s@));
        } else if i + 1 < s.len() {
            assert(rest.skip(1) =~= s@.skip(i + 1));
            out.push(s[i]);
            i = i + 1;
            assert(out@ + collapse(s@.skip(i as int)) =~= collapse(s@));
        } else {
            assert(rest =~= seq![s@[i as int]]);
            assert(s@.skip(i + 1) =~= Seq::<char>::empty());
            out.push(s[i]);
            i = i + 1;
            assert(out@ + collapse(s@.skip(i as int)) =~= collapse(s@));
        }
    }
    assert(s@.skip(i as int) =~= Seq::<char>::empty());
    assert(out@ =~= out@ + collapse(s@.skip(i as int)));
    out
}

/// The lines to emit: all of them, or those not equal to `t` when one is given.
pub open spec fn keep_lines(ls: Seq<Seq<char>>, skip: Option<Seq<char>>) -> Seq<Seq<char>> {
    match skip {
        Some(t) => drop_equal(ls, t),
        None => ls,
    }
}

/// The view of an optional line to leave out.
pub open spec fn skip_view(skip: Option<&Vec<char>>) -> Option<Seq<char>> {
    match skip {
        Some(t) => Some(t@),
        None => None,
    }
}

proof fn lemma_keep_push(ls: Seq<Seq<char>>, l: Seq<char>, skip: Option<Seq<char>>)
    ensures
        keep_lines(ls.push(l), skip) == if skip == Some(l) {
            keep_lines(ls, skip)
        } else {
            keep_lines(ls, skip).push(l)
        },
{
    assert(ls.push(l).drop_last() =~= ls);
}

proof fn lemma_prefixed_push(p: Seq<char>, ls: Seq<Seq<char>>, l: Seq<char>)
    ensures
        prefixed(p, ls.push(l)) == prefixed(p, ls) + p + l + seq!['\n'],
{
    assert(ls.push(l).drop_last() =~= ls);
}

/// Appends the line `l` with the marker `p` unless it is the line to leave out.
fn push_line(out: &mut Vec<char>, p: &str, l: &Vec<char>, skip: Option<&Vec<char>>)
    ensures
        final(out)@ == if skip_view(skip) == Some(l@) {
            old(out)@
        } else {
            old(out)@ + p@ + l@ + seq!['\n']
        },
{
    let keep_line = match skip {
        Some(t) => !vec_eq(l, t),
        None => true,
    };
    if keep_line {
        push_str(out, p);
        push_all(out, l.as_slice());
        out.push('\n');
    }
}

/// Appends each line of `s`, except those equal to `skip` when given, with
/// the marker `p` before it and a newline after it.
pub fn push_prefixed_lines(out: &mut Vec<char>, p: &str, s: &Vec<char>, skip: Option<&Vec<char>>)
    ensures
        final(out)@ == old(out)@ + prefixed(p@, keep_lines(lines(s@), skip_view(skip))),
{
    let ghost sk = skip_view(skip);
    let ghost mut done: Seq<Seq<char>> = Seq::empty();
    let mut cur: Vec<char> = Vec::new();
    let mut i: usize = 0;
    assert(s@.subrange(0, 0) =~= Seq::<char>::empty());
    assert(out@ =~= old(out)@ + prefixed(p@, keep_lines(done, sk)));
    while i < s.len()
        invariant
            i <= s@.len(),
            sk == skip_view(skip),
            split_nl(s@.subrange(0, i as int)) == done.push(cur@),
            out@ == old(out)@ + prefixed(p@, keep_lines(done, sk)),
        decreases s@.len() - i,
    {
        let ghost pre = s@.subrange(0, i as int);
        let c = s[i];
        i = i + 1;
        assert(s@.subrange(0, i as int).drop_last() =~= pre);
        assert(s@.subrange(0, i as int).last() == c);
        if c == '\n' {
            push_line(out, p, &cur, skip);
            proof {
                lemma_keep_push(done, cur@, sk);
                lemma_prefixed_push(p@, keep_lines(done, sk), cur@);
                done = done.push(cur@);
            }
            cur = Vec::new();
            assert(out@ =~= old(out)@ + prefixed(p@, keep_lines(done, sk)));
        } else {
            proof {
                lemma_split_nonempty(pre);
                let r = split_nl(pre);
                assert(r.len() - 1 == done.len());
            }
            cur.push(c);
            assert(split_nl(s@.subrange(0, i as int)) =~= done.push(cur@));
        }
    }
    assert(s@.subrange(0, i as int) =~= s@);
    let ghost whole = done.push(cur@);
    assert(whole.last() == cur@);
    assert(whole.drop_last() =~= done);
    if cur.len() > 0 {
        proof {
            if s@.len() == 0 {
                assert(split_nl(s@) =~= seq![Seq::<char>::empty()]);
            }
            assert(s@.len() > 0);
            if s@.last() == '\n' {
                assert(split_nl(s@).last() =~= Seq::<char>::empty());
            }
            assert(lines(s@) == whole);
            lemma_keep_push(done, cur@, sk);
            lemma_prefixed_push(p@, keep_lines(done, sk), cur@);
        }
        push_line(out, p, &cur, skip);
    } else {
        proof {
            if s@.len() > 0 {
                if s@.last() != '\n' {
                    lemma_split_nonempty(s@.drop_last());
                    assert(split_nl(s@).last().len() > 0);
                }
                assert(split_nl(s@.drop_last()) =~= done);
                assert(lines(s@) == done);
            } else {
                assert(lines(s@) =~= done);
            }
        }
    }
}

/// Compares two char vectors for equality.
pub fn vec_eq(a: &Vec<char>, b: &Vec<char>) -> (r: bool)
    ensures
        r == (a@ == b@),
{
    if a.len() != b.len() {
        return false;
    }
    let mut i: usize = 0;
    while i < a.len()
        invariant
            i <= a@.len(),
            a@.len() == b@.len(),
            forall|j: int| 0 <= j < i ==> a@[j] == b@[j],
        decreases a@.len() - i,
    {
        if a[i] != b[i] {
            return false;
        }
        i = i + 1;
    }
    assert(a@ =~= b@);
    true
}

} // verus!
