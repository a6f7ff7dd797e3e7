//! The metadata header written above each document.
use vstd::prelude::*;
use crate::text::{digit, digit_char, push_str, string_of};

verus! {

/// The header with the creation time only.
pub struct DefaultFrontmatterGenerator;

/// `---`, a `created:` line, `---`.
pub open spec fn default_frontmatter(created: Seq<char>) -> Seq<char> {
    "---\ncreated: "@ + created + "\n---\n"@
}

impl DefaultFrontmatterGenerator {
    /// The header for a page created at `created` (already formatted).
    pub fn generate(&self, created: &str) -> (r: String)
        ensures
            r@ == default_frontmatter(created@),
    {
        let mut out: Vec<char> = Vec::new();
        push_str(&mut out, "---\ncreated: ");
        push_str(&mut out, created);
        push_str(&mut out, "\n---\n");
        assert(out@ =~= default_frontmatter(created@));
        string_of(out.as_slice())
    }
}

/// The name of the tag with id `id`: the one inserted last wins.
pub open spec fn tag_lookup(tags: Seq<(String, String)>, id: Seq<char>) -> Option<Seq<char>>
    decreases tags.len(),
{
    if tags.len() == 0 {
        None
    } else if tags.last().0@ == id {
        Some(tags.last().1@)
    } else {
        tag_lookup(tags.drop_last(), id)
    }
}

/// The names of the ids that have a tag, in the order of the ids.
pub open spec fn known_names(tags: Seq<(String, String)>, ids: Seq<String>) -> Seq<Seq<char>>
    decreases ids.len(),
{
    if ids.len() == 0 {
        Seq::empty()
    } else {
        let rest = known_names(tags, ids.drop_last());
        match tag_lookup(tags, ids.last()@) {
            Some(name) => rest.push(name),
            None => rest,
        }
    }
}

/// One `  - "[[name]]"` line per type.
pub open spec fn type_lines(names: Seq<Seq<char>>) -> Seq<char>
    decreases names.len(),
{
    if names.len() == 0 {
        Seq::empty()
    } else {
        type_lines(names.drop_last()) + "  - \"[["@ + names.last() + "]]\"\n"@
    }
}

/// The header with types, an optional URL and the creation time.
pub open spec fn typed_frontmatter(
    names: Option<Seq<Seq<char>>>,
    url: Option<Seq<char>>,
    created: Seq<char>,
) -> Seq<char> {
    "---\ntypes:\n"@ + (match names {
        Some(ns) => type_lines(ns),
        None => Seq::empty(),
    }) + (match url {
        Some(u) => "URL: "@ + u + seq!['\n'],
        None => Seq::empty(),
    }) + "created: "@ + created + "\n---\n"@
}

/// A header that lists a page's types by tag name, from a table of tag ids
/// to names.
pub struct MyFrontmatterGenerator {
    tag_mapping: Vec<(String, String)>,
}

impl View for MyFrontmatterGenerator {
    type V = Seq<(String, String)>;

    closed spec fn view(&self) -> Seq<(String, String)> {
        self.tag_mapping@
    }
}

impl MyFrontmatterGenerator {
    /// A generator with the given (id, name) pairs; a later pair for the same
    /// id wins.
    pub fn new(tags: Vec<(String, String)>) -> (r: MyFrontmatterGenerator)
        ensures
            r@ == tags@,
    {
        MyFrontmatterGenerator { tag_mapping: tags }
    }

    /// Records that the tag `id` is called `name`.
    pub fn insert_tag(&mut self, id: String, name: String)
        ensures
            final(self)@ == old(self)@.push((id, name)),
            forall|k: Seq<char>| #[trigger] tag_lookup(final(self)@, k) == if k == id@ {
                Some(name@)
            } else {
                tag_lookup(old(self)@, k)
            },
    {
        self.tag_mapping.push((id, name));
        assert(self.tag_mapping@.drop_last() =~= old(self)@);
    }

    /// Records a tag page from the plain texts of the runs of its name
    /// property: the first run names the tag; a page whose name has no runs,
    /// or whose first run has no text, is left out.
    pub fn load_tag(&mut self, id: String, name_runs: &Vec<Option<String>>)
        ensures
            final(self)@ == if name_runs@.len() > 0 && name_runs@[0] is Some {
                old(self)@.push((id, name_runs@[0]->Some_0))
            } else {
                old(self)@
            },
    {
        if name_runs.len() > 0 {
            match &name_runs[0] {
                Some(name) => {
                    let n = name.clone();
                    self.insert_tag(id, n);
                },
                None => {},
            }
        }
    }

    /// The name of the tag `id`, if there is one.
    pub fn tag_name(&self, id: &String) -> (r: Option<String>)
        ensures
            match r {
                Some(s) => tag_lookup(self@, id@) == Some(s@),
                None => tag_lookup(self@, id@) is None,
            },
    {
        let mut i: usize = self.tag_mapping.len();
        assert(self@.subrange(0, i as int) =~= self@);
        while i > 0
            invariant
                i <= self@.len(),
                tag_lookup(self@, id@) == tag_lookup(self@.subrange(0, i as int), id@),
            decreases i,
        {
            let ghost pre = self@.subrange(0, i as int);
            assert(pre.drop_last() =~= self@.subrange(0, i - 1));
            if self.tag_mapping[i - 1].0 == *id {
                return Some(self.tag_mapping[i - 1].1.clone());
            }
            i = i - 1;
        }
        None
    }

    /// The tag names of the given related ids, leaving out ids without a
    /// tag; `None` when the page has no relation.
    pub fn extract_types(&self, relation: Option<&Vec<String>>) -> (r: Option<Vec<String>>)
        ensures
            match relation {
                Some(ids) => r matches Some(v) && v@.map_values(|s: String| s@) == known_names(
                    self@,
                    ids@,
                ),
                None => r is None,
            },
    {
        match relation {
            None => None,
            Some(ids) => {
                let mut names: Vec<String> = Vec::new();
                let mut i: usize = 0;
                assert(ids@.subrange(0, 0) =~= Seq::<String>::empty());
                while i < ids.len()
                    invariant
                        i <= ids@.len(),
                        names@.map_values(|s: String| s@) == known_names(
                            self@,
                            ids@.subrange(0, i as int),
                        ),
                    decreases ids@.len() - i,
                {
                    let ghost before = names@;
                    match self.tag_name(&ids[i]) {
                        Some(n) => names.push(n),
                        None => {},
                    }
                    i = i + 1;
                    assert(ids@.subrange(0, i as int).drop_last() =~= ids@.subrange(0, i - 1));
                    assert(names@.map_values(|s: String| s@) =~= known_names(
                        self@,
                        ids@.subrange(0, i as int),
                    ));
                }
                assert(ids@.subrange(0, i as int) =~= ids@);
                Some(names)
            },
        }
    }

    /// The header for a page: its types (the tag names of its relation, when
    /// it has one), its URL when it has one, and its creation time.
    pub fn generate(&self, relation: Option<&Vec<String>>, url: Option<&String>, created: &str) -> (r:
        String)
        ensures
            r@ == typed_frontmatter(
                match relation {
                    Some(ids) => Some(known_names(self@, ids@)),
                    None => None,
                },
                match url {
                    Some(u) => Some(u@),
                    None => None,
                },
                created@,
            ),
    {
        let mut out: Vec<char> = Vec::new();
        push_str(&mut out, "---\ntypes:\n");
        let ghost head = out@;
        let types = self.extract_types(relation);
        let ghost names: Seq<Seq<char>> = Seq::empty();
        match types {
            Some(ts) => {
                proof {
                    names = ts@.map_values(|s: String| s@);
                }
                let mut i: usize = 0;
                assert(names.subrange(0, 0) =~= Seq::<Seq<char>>::empty());
                while i < ts.len()
                    invariant
                        i <= ts@.len(),
                        names == ts@.map_values(|s: String| s@),
                        out@ == head + type_lines(names.subrange(0, i as int)),
                    decreases ts@.len() - i,
                {
                    push_str(&mut out, "  - \"[[");
                    push_str(&mut out, ts[i].as_str());
                    push_str(&mut out, "]]\"\n");
                    i = i + 1;
                    assert(names.subrange(0, i as int).drop_last() =~= names.subrange(0, i - 1));
                    assert(out@ =~= head + type_lines(names.subrange(0, i as int)));
                }
                assert(names.subrange(0, i as int) =~= names);
            },
            None => {},
        }
        let ghost mid = out@;
        match url {
            Some(u) => {
                push_str(&mut out, "URL: ");
                push_str(&mut out, u.as_str());
                out.push('\n');
            },
            None => {},
        }
        push_str(&mut out, "created: ");
        push_str(&mut out, created);
        push_str(&mut out, "\n---\n");
        assert(out@ =~= typed_frontmatter(
            match relation {
                Some(ids) => Some(known_names(self@, ids@)),
                None => None,
            },
            match url {
                Some(u) => Some(u@),
                None => None,
            },
            created@,
        ));
        string_of(out.as_slice())
    }
}

/// `n` in two digits, for `n` below one hundred.
pub open spec fn two_digits(n: nat) -> Seq<char> {
    seq![digit_char(n / 10), digit_char(n % 10)]
}

/// `n` in four digits, for `n` below ten thousand.
pub open spec fn four_digits(n: nat) -> Seq<char> {
    seq![digit_char(n / 1000), digit_char((n / 100) % 10), digit_char((n / 10) % 10), digit_char(n % 10)]
}

/// A time to the minute, as `YYYY-MM-DD HH:MM`.
pub open spec fn minute_stamp(year: nat, month: nat, day: nat, hour: nat, minute: nat) -> Seq<char> {
    four_digits(year) + seq!['-'] + two_digits(month) + seq!['-'] + two_digits(day) + seq![' ']
        + two_digits(hour) + seq![':'] + two_digits(minute)
}

fn push_two(out: &mut Vec<char>, n: u32)
    requires
        n < 100,
    ensures
        final(out)@ == old(out)@ + two_digits(n as nat),
{
    out.push(digit((n / 10) as usize));
    out.push(digit((n % 10) as usize));
    assert(out@ =~= old(out)@ + two_digits(n as nat));
}

/// Writes a creation time, given in the reader's time zone, as
/// `YYYY-MM-DD HH:MM`.
pub fn format_datetime(year: u32, month: u32, day: u32, hour: u32, minute: u32) -> (r: String)
    requires
        year <= 9999,
        1 <= month <= 12,
        1 <= day <= 31,
        hour < 24,
        minute < 60,
    ensures
        r@ == minute_stamp(year as nat, month as nat, day as nat, hour as nat, minute as nat),
{
    let mut out: Vec<char> = Vec::new();
    out.push(digit((year / 1000) as usize));
    out.push(digit(((year / 100) % 10) as usize));
    out.push(digit(((year / 10) % 10) as usize));
    out.push(digit((year % 10) as usize));
    out.push('-');
    push_two(&mut out, month);
    out.push('-');
    push_two(&mut out, day);
    out.push(' ');
    push_two(&mut out, hour);
    out.push(':');
    push_two(&mut out, minute);
    assert(out@ =~= minute_stamp(year as nat, month as nat, day as nat, hour as nat, minute as nat));
    string_of(out.as_slice())
}

} // verus!
