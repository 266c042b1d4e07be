//! A line search: the command line names a query and a file, and the lines of
//! the file that contain the query are printed.

use vstd::prelude::*;
use crate::text::{chars_of, contains_chars, contains_spec, line_bounds, lines_spec, pieces_of, string_from_chars};

verus! {

/// The query and the file name of a search.
pub struct ConfigView {
    pub filename: Seq<char>,
    pub query: Seq<char>,
}

/// What to search for, and where.
pub struct Config<'a> {
    filename: &'a str,
    query: &'a str,
}

impl<'a> View for Config<'a> {
    type V = ConfigView;

    closed spec fn view(&self) -> ConfigView {
        ConfigView { filename: self.filename@, query: self.query@ }
    }
}

impl<'a> Config<'a> {
    /// Reads the query and the file name from the command line `args`
    /// (the program's name first); fails unless both are there.
    pub fn new(args: &'a [String]) -> (r: Result<Config<'a>, &'static str>)
        ensures
            r is Err <==> args@.len() < 3,
            r matches Err(m) ==> m@ == "no enough args"@,
            r matches Ok(c) ==> c@.query == args@[1]@ && c@.filename == args@[2]@,
    {
        if args.len() < 3 {
            return Err("no enough args");
        }
        let search_str = args[1].as_str();
        let filename = args[2].as_str();
        Ok(Config { filename, query: search_str })
    }

    /// The file to search.
    pub fn filename(&self) -> (r: &'a str)
        ensures
            r@ == self@.filename,
    {
        self.filename
    }

    /// The text to search for.
    pub fn query(&self) -> (r: &'a str)
        ensures
            r@ == self@.query,
    {
        self.query
    }
}

/// The lines among `lines` that contain `q`, in order.
pub open spec fn matching_lines(lines: Seq<Seq<char>>, q: Seq<char>) -> Seq<Seq<char>>
    decreases lines.len(),
{
    if lines.len() == 0 {
        Seq::empty()
    } else {
        let rest = matching_lines(lines.drop_last(), q);
        if contains_spec(lines.last(), q) {
            rest.push(lines.last())
        } else {
            rest
        }
    }
}

/// Every text contains itself: a line that is exactly the query matches it.
pub proof fn law_text_contains_itself(s: Seq<char>)
    ensures
        contains_spec(s, s),
{
    assert(s.subrange(0, 0 + s.len() as int) =~= s);
}

/// The search keeps exactly the lines that contain the query: every line that
/// contains it is in the result, every line of the result is one of the lines
/// and contains it, the result keeps the lines' order, and a line is in the
/// result as often as among the lines that contain the query.
pub proof fn law_matching_lines_exact(lines: Seq<Seq<char>>, q: Seq<char>)
    ensures
        forall|i: int| 0 <= i < lines.len() && contains_spec(#[trigger] lines[i], q)
            ==> matching_lines(lines, q).contains(lines[i]),
        forall|j: int| 0 <= j < matching_lines(lines, q).len()
            ==> lines.contains(#[trigger] matching_lines(lines, q)[j]) && contains_spec(matching_lines(lines, q)[j], q),
        matching_lines(lines, q) == lines.filter(|l: Seq<char>| contains_spec(l, q)),
        lines.contains(q) ==> matching_lines(lines, q).contains(q),
    decreases lines.len(),
{
    if lines.len() > 0 {
        law_matching_lines_exact(lines.drop_last(), q);
        let pred = |l: Seq<char>| contains_spec(l, q);
        reveal(Seq::filter);
        assert(lines.filter(pred) == (if pred(lines.last()) {
            lines.drop_last().filter(pred).push(lines.last())
        } else {
            lines.drop_last().filter(pred)
        }));
        let rest = matching_lines(lines.drop_last(), q);
        let r = matching_lines(lines, q);
        assert forall|i: int| 0 <= i < lines.len() && contains_spec(#[trigger] lines[i], q) implies r.contains(lines[i]) by {
            if i < lines.len() - 1 {
                assert(lines.drop_last()[i] == lines[i]);
                let k = choose|k: int| 0 <= k < rest.len() && rest[k] == lines[i];
                assert(r[k] == lines[i]);
            } else {
                assert(r[r.len() - 1] == lines[i]);
            }
        }
        assert forall|j: int| 0 <= j < r.len() implies lines.contains(#[trigger] r[j]) && contains_spec(r[j], q) by {
            if j < rest.len() {
                assert(r[j] == rest[j]);
                let k = choose|k: int| 0 <= k < lines.drop_last().len() && lines.drop_last()[k] == rest[j];
                assert(lines[k] == rest[j]);
            } else {
                assert(r[j] == lines[lines.len() - 1]);
            }
        }
        if lines.contains(q) {
            let i = choose|i: int| 0 <= i < lines.len() && lines[i] == q;
            law_text_contains_itself(q);
            assert(contains_spec(lines[i], q));
        }
    } else {
        reveal(Seq::filter);
        assert(lines.filter(|l: Seq<char>| contains_spec(l, q)) =~= Seq::<Seq<char>>::empty());
    }
}

/// The views of a list of strings.
pub open spec fn string_views(v: Seq<String>) -> Seq<Seq<char>> {
    v.map_values(|s: String| s@)
}

/// The lines of `content` that contain `query`, in order.
pub fn search(content: &str, query: &str) -> (r: Vec<String>)
    ensures
        string_views(r@) == matching_lines(lines_spec(content@), query@),
{
    let cs = chars_of(content);
    let qs = chars_of(query);
    let bounds = line_bounds(cs.as_slice());
    let ghost lines = pieces_of(cs@, bounds@);
    let mut r: Vec<String> = Vec::new();
    let mut i: usize = 0;
    assert(lines.take(0) =~= Seq::<Seq<char>>::empty());
    assert(string_views(r@) =~= Seq::<Seq<char>>::empty());
    while i < bounds.len()
        invariant
            i <= bounds@.len(),
            lines == pieces_of(cs@, bounds@),
            forall|k: int| 0 <= k < bounds@.len() ==> (#[trigger] bounds@[k]).0 <= bounds@[k].1 && bounds@[k].1 <= cs@.len(),
            string_views(r@) == matching_lines(lines.take(i as int), qs@),
        decreases bounds@.len() - i,
    {
        let (a, b) = bounds[i];
        assert(lines[i as int] == cs@.subrange(a as int, b as int));
        assert(lines.take(i + 1).drop_last() =~= lines.take(i as int));
        assert(lines.take(i + 1).last() == lines[i as int]);
        if contains_chars(cs.as_slice(), a, b, qs.as_slice()) {
            let line = string_from_chars(cs.as_slice(), a, b);
            let ghost before = r@;
            r.push(line);
            assert(string_views(r@) =~= string_views(before).push(line@));
        }
        i = i + 1;
    }
    assert(lines.take(bounds@.len() as int) =~= lines);
    r
}

} // verus!
