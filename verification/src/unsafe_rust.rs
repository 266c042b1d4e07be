//! Text shapes: a framed outline around a value's text, a record's debug
//! text, and a bracketed list.

use vstd::prelude::*;
use vstd::utf8::encode_utf8;
use crate::text::push_char;
use crate::http::response::{i32_to_string, int_decimal};

verus! {

/// `n` copies of `c`.
pub open spec fn repeat(c: char, n: nat) -> Seq<char> {
    Seq::new(n, |i: int| c)
}

/// A string of `n` copies of `c` (`str::repeat`).
pub fn repeat_char(c: char, n: usize) -> (r: String)
    ensures
        r@ == repeat(c, n as nat),
{
    let mut r = String::new();
    let mut i: usize = 0;
    while i < n
        invariant
            i <= n,
            r@ == repeat(c, i as nat),
        decreases n - i,
    {
        push_char(&mut r, c);
        i = i + 1;
        assert(r@ =~= repeat(c, i as nat));
    }
    r
}

/// The five lines that frame `s`: a row of stars, a starred blank line, the
/// text between stars, the blank line again, the stars again. The frame is as
/// wide as the text's length in bytes plus four.
pub open spec fn outline_spec(s: Seq<char>) -> Seq<Seq<char>> {
    let n = encode_utf8(s).len();
    let stars = repeat('*', n + 4);
    let blank = seq!['*'] + repeat(' ', n + 2) + seq!['*'];
    seq![stars, blank, seq!['*', ' '] + s + seq![' ', '*'], blank, stars]
}

/// The framed outline of `output`, line by line.
pub fn outline(output: &str) -> (r: Vec<String>)
    requires
        encode_utf8(output@).len() + 4 <= usize::MAX,
    ensures
        r@.map_values(|l: String| l@) == outline_spec(output@),
{
    let len = output.len();
    let stars = repeat_char('*', len + 4);
    let mut blank = String::new();
    push_char(&mut blank, '*');
    let spaces = repeat_char(' ', len + 2);
    blank.append(spaces.as_str());
    push_char(&mut blank, '*');
    let mut middle = String::new();
    push_char(&mut middle, '*');
    push_char(&mut middle, ' ');
    middle.append(output);
    push_char(&mut middle, ' ');
    push_char(&mut middle, '*');
    let ghost n = encode_utf8(output@).len();
    assert(len == n);
    assert(blank@ =~= seq!['*'] + repeat(' ', n + 2) + seq!['*']);
    assert(middle@ =~= seq!['*', ' '] + output@ + seq![' ', '*']);
    let mut r: Vec<String> = Vec::new();
    let stars2 = stars.clone();
    let blank2 = blank.clone();
    r.push(stars);
    r.push(blank);
    r.push(middle);
    r.push(blank2);
    r.push(stars2);
    assert(r@.map_values(|l: String| l@)[0] == outline_spec(output@)[0]);
    assert(r@.map_values(|l: String| l@)[1] == outline_spec(output@)[1]);
    assert(r@.map_values(|l: String| l@)[2] == outline_spec(output@)[2]);
    assert(r@.map_values(|l: String| l@)[3] == outline_spec(output@)[3]);
    assert(r@.map_values(|l: String| l@)[4] == outline_spec(output@)[4]);
    assert(r@.map_values(|l: String| l@) =~= outline_spec(output@));
    r
}

/// A record of four numbers.
pub struct Demo {
    pub a: i32,
    pub b: i32,
    pub c: i32,
    pub d: i32,
}

/// The debug text of a record: `Demo { a: 1, b: 2, c: 4, d: 5 }`.
pub open spec fn demo_text(a: i32, b: i32, c: i32, d: i32) -> Seq<char> {
    "Demo { a: "@ + int_decimal(a as int) + ", b: "@ + int_decimal(b as int) + ", c: "@
        + int_decimal(c as int) + ", d: "@ + int_decimal(d as int) + " }"@
}

impl Demo {
    /// The record's debug text, which is also what it displays.
    pub fn to_string(&self) -> (r: String)
        ensures
            r@ == demo_text(self.a, self.b, self.c, self.d),
    {
        let mut r = String::from_str("Demo { a: ");
        r.append(i32_to_string(self.a).as_str());
        r.append(", b: ");
        r.append(i32_to_string(self.b).as_str());
        r.append(", c: ");
        r.append(i32_to_string(self.c).as_str());
        r.append(", d: ");
        r.append(i32_to_string(self.d).as_str());
        r.append(" }");
        r
    }
}

/// `items` joined by `, `.
pub open spec fn join_comma(items: Seq<Seq<char>>) -> Seq<char>
    decreases items.len(),
{
    if items.len() == 0 {
        Seq::empty()
    } else if items.len() == 1 {
        items[0]
    } else {
        join_comma(items.drop_last()) + ", "@ + items.last()
    }
}

/// A list shown in brackets.
pub struct Wrapper(pub Vec<String>);

impl Wrapper {
    /// `[` then the items joined by `, `, then `]`.
    pub fn to_string(&self) -> (r: String)
        ensures
            r@ == "["@ + join_comma(self.0@.map_values(|s: String| s@)) + "]"@,
    {
        let ghost items = self.0@.map_values(|s: String| s@);
        let mut r = String::new();
        let mut i: usize = 0;
        let n = self.0.len();
        assert(items.take(0) =~= Seq::<Seq<char>>::empty());
        while i < n
            invariant
                n == self.0@.len(),
                items == self.0@.map_values(|s: String| s@),
                i <= n,
                r@ == join_comma(items.take(i as int)),
            decreases n - i,
        {
            assert(items.take(i + 1).drop_last() =~= items.take(i as int));
            assert(items.take(i + 1).last() == self.0@[i as int]@);
            if i > 0 {
                r.append(", ");
            }
            r.append(self.0[i].as_str());
            proof {
                reveal_strlit(", ");
                if i == 0 {
                    assert(items.take(1).len() == 1);
                }
            }
            i = i + 1;
        }
        assert(items.take(n as int) =~= items);
        let mut out = String::from_str("[");
        out.append(r.as_str());
        out.append("]");
        out
    }
}

} // verus!
