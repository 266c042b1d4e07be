//! Character-level text operations with exact specifications:
//! whitespace trimming, splitting, searching, decimal numbers and UTF-8.

use vstd::prelude::*;
use vstd::utf8::*;

verus! {

/// Appends one character to a string (`String::push`).
/// Trusted: the string's characters afterwards are the old ones followed by `c`.
#[verifier::external_body]
pub(crate) fn push_char(s: &mut String, c: char)
    ensures
        final(s)@ == old(s)@.push(c),
{
    s.push(c)
}

/// The characters of `s`, in order.
pub fn chars_of(s: &str) -> (r: Vec<char>)
    ensures
        r@ == s@,
{
    let n = s.unicode_len();
    let mut r: Vec<char> = Vec::new();
    let mut i: usize = 0;
    while i < n
        invariant
            n == s@.len(),
            i <= n,
            r@ == s@.subrange(0, i as int),
        decreases n - i,
    {
        let c = s.get_char(i);
        r.push(c);
        i = i + 1;
    }
    r
}

/// A string holding exactly the characters `cs[from..to]`.
pub fn string_from_chars(cs: &[char], from: usize, to: usize) -> (r: String)
    requires
        from <= to <= cs@.len(),
    ensures
        r@ == cs@.subrange(from as int, to as int),
{
    let mut r = String::new();
    let mut i = from;
    while i < to
        invariant
            from <= i <= to <= cs@.len(),
            r@ == cs@.subrange(from as int, i as int),
        decreases to - i,
    {
        push_char(&mut r, cs[i]);
        i = i + 1;
    }
    r
}

/// Unicode `White_Space`, the property that `char::is_whitespace` tests.
pub open spec fn is_ws(c: char) -> bool {
    ||| ('\u{9}' <= c && c <= '\u{d}')
    ||| c == ' '
    ||| c == '\u{85}'
    ||| c == '\u{a0}'
    ||| c == '\u{1680}'
    ||| ('\u{2000}' <= c && c <= '\u{200a}')
    ||| c == '\u{2028}'
    ||| c == '\u{2029}'
    ||| c == '\u{202f}'
    ||| c == '\u{205f}'
    ||| c == '\u{3000}'
}

/// Executable whitespace test.
pub fn is_whitespace(c: char) -> (r: bool)
    ensures
        r == is_ws(c),
{
    ('\u{9}' <= c && c <= '\u{d}') || c == ' ' || c == '\u{85}' || c == '\u{a0}' || c == '\u{1680}'
        || ('\u{2000}' <= c && c <= '\u{200a}') || c == '\u{2028}' || c == '\u{2029}' || c
        == '\u{202f}' || c == '\u{205f}' || c == '\u{3000}'
}

/// `s` without its leading whitespace.
pub open spec fn trim_front(s: Seq<char>) -> Seq<char>
    decreases s.len(),
{
    if s.len() > 0 && is_ws(s[0]) {
        trim_front(s.drop_first())
    } else {
        s
    }
}

/// `s` without its trailing whitespace.
pub open spec fn trim_back(s: Seq<char>) -> Seq<char>
    decreases s.len(),
{
    if s.len() > 0 && is_ws(s.last()) {
        trim_back(s.drop_last())
    } else {
        s
    }
}

/// `s` without leading and trailing whitespace (`str::trim`).
pub open spec fn trim(s: Seq<char>) -> Seq<char> {
    trim_back(trim_front(s))
}

/// The bounds of `trim(cs[from..to])` inside `cs`.
pub fn trim_bounds(cs: &[char], from: usize, to: usize) -> (r: (usize, usize))
    requires
        from <= to <= cs@.len(),
    ensures
        from <= r.0 <= r.1 <= to,
        cs@.subrange(r.0 as int, r.1 as int) == trim(cs@.subrange(from as int, to as int)),
{
    let ghost s = cs@.subrange(from as int, to as int);
    let mut a = from;
    while a < to && is_whitespace(cs[a])
        invariant
            from <= a <= to <= cs@.len(),
            s == cs@.subrange(from as int, to as int),
            trim_front(s) == trim_front(cs@.subrange(a as int, to as int)),
        decreases to - a,
    {
        assert(cs@.subrange(a as int, to as int).drop_first() =~= cs@.subrange(
            a + 1,
            to as int,
        ));
        a = a + 1;
    }
    assert(trim_front(s) == cs@.subrange(a as int, to as int));
    let mut b = to;
    while b > a && is_whitespace(cs[b - 1])
        invariant
            from <= a <= b <= to <= cs@.len(),
            trim_front(s) == cs@.subrange(a as int, to as int),
            trim(s) == trim_back(cs@.subrange(a as int, b as int)),
        decreases b - a,
    {
        assert(cs@.subrange(a as int, b as int).drop_last() =~= cs@.subrange(
            a as int,
            b - 1,
        ));
        b = b - 1;
    }
    (a, b)
}


/// Why a decimal number could not be read (`core::num::IntErrorKind`).
#[derive(Clone, Copy, Debug, PartialEq, Eq)]
pub enum IntErrorKind {
    Empty,
    InvalidDigit,
    PosOverflow,
}

pub open spec fn is_digit(c: char) -> bool {
    '0' <= c && c <= '9'
}

pub open spec fn digit_value(c: char) -> int {
    (c as int) - ('0' as int)
}

/// Reads the decimal digits of `s` after `acc`, left to right, stopping at the first
/// character that is no digit or at the first value above `usize::MAX`.
pub open spec fn parse_digits(s: Seq<char>, acc: int) -> Result<int, IntErrorKind>
    decreases s.len(),
{
    if s.len() == 0 {
        Ok(acc)
    } else if !is_digit(s[0]) {
        Err(IntErrorKind::InvalidDigit)
    } else if acc * 10 + digit_value(s[0]) > usize::MAX {
        Err(IntErrorKind::PosOverflow)
    } else {
        parse_digits(s.drop_first(), acc * 10 + digit_value(s[0]))
    }
}

/// What `str::parse::<usize>` gives: an optional `+`, then at least one decimal digit.
pub open spec fn parse_usize_spec(s: Seq<char>) -> Result<int, IntErrorKind> {
    if s.len() == 0 {
        Err(IntErrorKind::Empty)
    } else if (s[0] == '+' || s[0] == '-') && s.len() == 1 {
        Err(IntErrorKind::InvalidDigit)
    } else if s[0] == '+' {
        parse_digits(s.drop_first(), 0)
    } else {
        parse_digits(s, 0)
    }
}

proof fn lemma_parse_digits_bounded(s: Seq<char>, acc: int)
    requires
        0 <= acc <= usize::MAX,
    ensures
        parse_digits(s, acc) matches Ok(v) ==> 0 <= v <= usize::MAX,
    decreases s.len(),
{
    if s.len() > 0 && is_digit(s[0]) && acc * 10 + digit_value(s[0]) <= usize::MAX {
        lemma_parse_digits_bounded(s.drop_first(), acc * 10 + digit_value(s[0]));
    }
}

/// Parses `cs[from..to]` as a `usize`, as `str::parse::<usize>` does.
pub fn parse_usize(cs: &[char], from: usize, to: usize) -> (r: Result<usize, IntErrorKind>)
    requires
        from <= to <= cs@.len(),
    ensures
        match parse_usize_spec(cs@.subrange(from as int, to as int)) {
            Ok(v) => r matches Ok(x) && x == v,
            Err(e) => r == Err::<usize, IntErrorKind>(e),
        },
{
    let ghost s = cs@.subrange(from as int, to as int);
    if from == to {
        return Err(IntErrorKind::Empty);
    }
    if (cs[from] == '+' || cs[from] == '-') && to - from == 1 {
        return Err(IntErrorKind::InvalidDigit);
    }
    let mut i = from;
    if cs[from] == '+' {
        i = from + 1;
        assert(s.drop_first() =~= cs@.subrange(i as int, to as int));
    }
    let ghost goal = parse_usize_spec(s);
    assert(goal == parse_digits(cs@.subrange(i as int, to as int), 0));
    let mut acc: usize = 0;
    while i < to
        invariant
            from <= i <= to <= cs@.len(),
            goal == parse_usize_spec(cs@.subrange(from as int, to as int)),
            goal == parse_digits(cs@.subrange(i as int, to as int), acc as int),
        decreases to - i,
    {
        let c = cs[i];
        let ghost rest = cs@.subrange(i as int, to as int);
        assert(rest[0] == c);
        if !('0' <= c && c <= '9') {
            assert(parse_digits(rest, acc as int) == Err::<int, IntErrorKind>(IntErrorKind::InvalidDigit));
            return Err(IntErrorKind::InvalidDigit);
        }
        let d = ((c as u32) - ('0' as u32)) as usize;
        assert(d == digit_value(c));
        let m = acc.checked_mul(10);
        match m {
            None => {
                assert(acc * 10 + d > usize::MAX);
                assert(parse_digits(rest, acc as int) == Err::<int, IntErrorKind>(IntErrorKind::PosOverflow));
                return Err(IntErrorKind::PosOverflow);
            },
            Some(m) => {
                match m.checked_add(d) {
                    None => {
                        assert(parse_digits(rest, acc as int) == Err::<int, IntErrorKind>(IntErrorKind::PosOverflow));
                        return Err(IntErrorKind::PosOverflow);
                    },
                    Some(n) => {
                        assert(rest.drop_first() =~= cs@.subrange(i + 1, to as int));
                        acc = n;
                    },
                }
            },
        }
        i = i + 1;
    }
    Ok(acc)
}

pub open spec fn digit_char(d: int) -> char {
    (('0' as int) + d) as char
}

/// The decimal representation of `n`, without sign or leading zeros.
pub open spec fn decimal(n: nat) -> Seq<char>
    decreases n,
{
    if n < 10 {
        seq![digit_char(n as int)]
    } else {
        decimal(n / 10).push(digit_char((n % 10) as int))
    }
}

/// The decimal text of `n` (`usize::to_string`).
pub fn usize_to_string(n: usize) -> (r: String)
    ensures
        r@ == decimal(n as nat),
    decreases n,
{
    let d = n % 10;
    let c = (48u8 + (d as u8)) as char;
    assert(c == digit_char(d as int));
    if n < 10 {
        let mut s = String::new();
        push_char(&mut s, c);
        assert(s@ =~= seq![digit_char(n as int)]);
        s
    } else {
        let mut s = usize_to_string(n / 10);
        push_char(&mut s, c);
        s
    }
}

proof fn lemma_parse_digits_push(s: Seq<char>, c: char, acc: int)
    ensures
        parse_digits(s.push(c), acc) == (match parse_digits(s, acc) {
            Ok(v) => if !is_digit(c) {
                Err(IntErrorKind::InvalidDigit)
            } else if v * 10 + digit_value(c) > usize::MAX {
                Err(IntErrorKind::PosOverflow)
            } else {
                Ok(v * 10 + digit_value(c))
            },
            Err(e) => Err(e),
        }),
    decreases s.len(),
{
    if s.len() == 0 {
        assert(s.push(c)[0] == c);
        assert(s.push(c).drop_first() =~= Seq::<char>::empty());
        let x = acc * 10 + digit_value(c);
        assert(parse_digits(Seq::<char>::empty(), x) == Ok::<int, IntErrorKind>(x));
    } else {
        assert(s.push(c)[0] == s[0]);
        assert(s.push(c).drop_first() =~= s.drop_first().push(c));
        if is_digit(s[0]) && acc * 10 + digit_value(s[0]) <= usize::MAX {
            lemma_parse_digits_push(s.drop_first(), c, acc * 10 + digit_value(s[0]));
        }
    }
}

proof fn lemma_digit_char(d: int)
    requires
        0 <= d < 10,
    ensures
        is_digit(digit_char(d)),
        digit_value(digit_char(d)) == d,
{
}

proof fn lemma_decimal_parses(n: nat)
    requires
        n <= usize::MAX,
    ensures
        decimal(n).len() > 0,
        is_digit(decimal(n)[0]),
        parse_digits(decimal(n), 0) == Ok::<int, IntErrorKind>(n as int),
    decreases n,
{
    lemma_digit_char((n % 10) as int);
    if n < 10 {
        lemma_digit_char(n as int);
        let s = decimal(n);
        assert(s[0] == digit_char(n as int));
        assert(s.drop_first() =~= Seq::<char>::empty());
        assert(parse_digits(Seq::<char>::empty(), n as int) == Ok::<int, IntErrorKind>(n as int));
    } else {
        lemma_decimal_parses(n / 10);
        assert(decimal(n)[0] == decimal(n / 10)[0]);
        lemma_parse_digits_push(decimal(n / 10), digit_char((n % 10) as int), 0);
    }
}

/// Reading back the decimal text of a number gives the number.
pub proof fn law_decimal_round_trip(n: usize)
    ensures
        parse_usize_spec(decimal(n as nat)) == Ok::<int, IntErrorKind>(n as int),
{
    lemma_decimal_parses(n as nat);
}


/// The pieces of `s` between the occurrences of `sep` (`str::split` on one character),
/// `pieces` and `cur` being what was already cut off and the piece being read.
pub open spec fn split_acc(s: Seq<char>, sep: char, pieces: Seq<Seq<char>>, cur: Seq<char>) -> Seq<Seq<char>>
    decreases s.len(),
{
    if s.len() == 0 {
        pieces.push(cur)
    } else if s[0] == sep {
        split_acc(s.drop_first(), sep, pieces.push(cur), Seq::empty())
    } else {
        split_acc(s.drop_first(), sep, pieces, cur.push(s[0]))
    }
}

/// `str::split` with a one-character pattern: always at least one piece.
pub open spec fn split_spec(s: Seq<char>, sep: char) -> Seq<Seq<char>> {
    split_acc(s, sep, Seq::empty(), Seq::empty())
}

/// The pieces named by a list of bounds into `cs`.
pub open spec fn pieces_of(cs: Seq<char>, bounds: Seq<(usize, usize)>) -> Seq<Seq<char>> {
    Seq::new(bounds.len(), |k: int| cs.subrange(bounds[k].0 as int, bounds[k].1 as int))
}

/// Bounds, inside `cs`, of the pieces of `cs[from..to]` split at `sep`.
pub fn split_bounds(cs: &[char], from: usize, to: usize, sep: char) -> (r: Vec<(usize, usize)>)
    requires
        from <= to <= cs@.len(),
    ensures
        pieces_of(cs@, r@) == split_spec(cs@.subrange(from as int, to as int), sep),
        forall|k: int| 0 <= k < r@.len() ==> from <= #[trigger] r@[k].0 <= r@[k].1 <= to,
{
    let ghost goal = split_spec(cs@.subrange(from as int, to as int), sep);
    let mut r: Vec<(usize, usize)> = Vec::new();
    let mut start = from;
    let mut i = from;
    assert(cs@.subrange(from as int, from as int) =~= Seq::<char>::empty());
    assert(pieces_of(cs@, r@) =~= Seq::<Seq<char>>::empty());
    while i < to
        invariant
            from <= start <= i <= to <= cs@.len(),
            forall|k: int| 0 <= k < r@.len() ==> from <= #[trigger] r@[k].0 <= r@[k].1 <= start,
            goal == split_acc(
                cs@.subrange(i as int, to as int),
                sep,
                pieces_of(cs@, r@),
                cs@.subrange(start as int, i as int),
            ),
        decreases to - i,
    {
        let ghost rest = cs@.subrange(i as int, to as int);
        assert(rest[0] == cs@[i as int]);
        assert(rest.drop_first() =~= cs@.subrange(i + 1, to as int));
        if cs[i] == sep {
            let ghost old_pieces = pieces_of(cs@, r@);
            r.push((start, i));
            assert(pieces_of(cs@, r@) =~= old_pieces.push(cs@.subrange(start as int, i as int)));
            i = i + 1;
            start = i;
            assert(cs@.subrange(start as int, i as int) =~= Seq::<char>::empty());
        } else {
            assert(cs@.subrange(start as int, i + 1) =~= cs@.subrange(start as int, i as int).push(cs@[i as int]));
            i = i + 1;
        }
    }
    let ghost old_pieces = pieces_of(cs@, r@);
    r.push((start, to));
    assert(pieces_of(cs@, r@) =~= old_pieces.push(cs@.subrange(start as int, to as int)));
    r
}

proof fn lemma_split_segment(seg: Seq<char>, rest: Seq<char>, sep: char, pieces: Seq<Seq<char>>, cur: Seq<char>)
    requires
        forall|j: int| 0 <= j < seg.len() ==> seg[j] != sep,
    ensures
        split_acc(seg + rest, sep, pieces, cur) == split_acc(rest, sep, pieces, cur + seg),
    decreases seg.len(),
{
    if seg.len() == 0 {
        assert(seg + rest =~= rest);
        assert(cur + seg =~= cur);
    } else {
        let s = seg + rest;
        assert(s[0] == seg[0]);
        assert(s.drop_first() =~= seg.drop_first() + rest);
        lemma_split_segment(seg.drop_first(), rest, sep, pieces, cur.push(seg[0]));
        assert(cur.push(seg[0]) + seg.drop_first() =~= cur + seg);
    }
}

/// Parts without the separator, joined by it, split back into the same parts.
pub proof fn law_split_join3(a: Seq<char>, b: Seq<char>, c: Seq<char>, sep: char)
    requires
        forall|j: int| 0 <= j < a.len() ==> a[j] != sep,
        forall|j: int| 0 <= j < b.len() ==> b[j] != sep,
        forall|j: int| 0 <= j < c.len() ==> c[j] != sep,
    ensures
        split_spec(a + seq![sep] + b + seq![sep] + c, sep) == seq![a, b, c],
{
    let e = Seq::<char>::empty();
    let r2 = seq![sep] + c;
    let r1 = seq![sep] + b + r2;
    assert(a + seq![sep] + b + seq![sep] + c =~= a + r1);
    lemma_split_segment(a, r1, sep, Seq::empty(), e);
    assert(e + a =~= a);
    assert(r1[0] == sep);
    assert(r1.drop_first() =~= b + r2);
    lemma_split_segment(b, r2, sep, seq![a], e);
    assert(e + b =~= b);
    assert(r2[0] == sep);
    assert(r2.drop_first() =~= c);
    assert(c =~= c + Seq::<char>::empty());
    lemma_split_segment(c, Seq::empty(), sep, seq![a, b], e);
    assert(e + c =~= c);
    assert(seq![a].push(b) =~= seq![a, b]);
    assert(seq![a, b].push(c) =~= seq![a, b, c]);
    assert(Seq::<Seq<char>>::empty().push(a) =~= seq![a]);
}

/// Index of the first `c` in `s`, if any.
pub open spec fn find_spec(s: Seq<char>, c: char) -> Option<int>
    decreases s.len(),
{
    if s.len() == 0 {
        None
    } else if s[0] == c {
        Some(0)
    } else {
        match find_spec(s.drop_first(), c) {
            Some(k) => Some(k + 1),
            None => None,
        }
    }
}

pub proof fn lemma_find_spec(s: Seq<char>, c: char)
    ensures
        find_spec(s, c) matches Some(k) ==> 0 <= k < s.len() && s[k] == c
            && forall|j: int| 0 <= j < k ==> s[j] != c,
        find_spec(s, c) is None ==> forall|j: int| 0 <= j < s.len() ==> s[j] != c,
    decreases s.len(),
{
    if s.len() > 0 && s[0] != c {
        lemma_find_spec(s.drop_first(), c);
        assert forall|j: int| 1 <= j < s.len() implies s[j] == s.drop_first()[j - 1] by {}
    }
}

/// Position in `cs` of the first `c` in `cs[from..to]`.
pub fn find_char(cs: &[char], from: usize, to: usize, c: char) -> (r: Option<usize>)
    requires
        from <= to <= cs@.len(),
    ensures
        match find_spec(cs@.subrange(from as int, to as int), c) {
            Some(k) => r matches Some(i) && i == from + k,
            None => r is None,
        },
        r matches Some(i) ==> from <= i < to,
{
    proof {
        lemma_find_spec(cs@.subrange(from as int, to as int), c);
    }
    let mut i = from;
    while i < to
        invariant
            from <= i <= to <= cs@.len(),
            find_spec(cs@.subrange(from as int, to as int), c) == (match find_spec(
                cs@.subrange(i as int, to as int),
                c,
            ) {
                Some(k) => Some(k + (i - from)),
                None => None,
            }),
        decreases to - i,
    {
        let ghost rest = cs@.subrange(i as int, to as int);
        assert(rest[0] == cs@[i as int]);
        if cs[i] == c {
            return Some(i);
        }
        assert(rest.drop_first() =~= cs@.subrange(i + 1, to as int));
        i = i + 1;
    }
    None
}

/// Whether `p` occurs in `s` as a contiguous piece (`str::contains`).
pub open spec fn contains_spec(s: Seq<char>, p: Seq<char>) -> bool {
    exists|k: int| 0 <= k && k + p.len() <= s.len() && #[trigger] s.subrange(k, k + p.len()) == p
}

/// Whether `p` occurs in `cs[from..to]`.
pub fn contains_chars(cs: &[char], from: usize, to: usize, p: &[char]) -> (r: bool)
    requires
        from <= to <= cs@.len(),
    ensures
        r == contains_spec(cs@.subrange(from as int, to as int), p@),
{
    let ghost s = cs@.subrange(from as int, to as int);
    let n = to - from;
    let m = p.len();
    if m > n {
        return false;
    }
    let mut k: usize = 0;
    while k <= n - m
        invariant
            m <= n,
            n == to - from,
            from <= to <= cs@.len(),
            m == p@.len(),
            s == cs@.subrange(from as int, to as int),
            k <= n - m + 1,
            forall|j: int| 0 <= j < k ==> #[trigger] s.subrange(j, j + m) != p@,
        decreases n - m + 1 - k,
    {
        let mut j: usize = 0;
        let mut same = true;
        while j < m
            invariant
                m <= n,
                n == to - from,
                from <= to <= cs@.len(),
                m == p@.len(),
                k + m <= n,
                j <= m,
                same == (forall|t: int| 0 <= t < j ==> cs@[from + k + t] == p@[t]),
            decreases m - j,
        {
            if cs[from + k + j] != p[j] {
                same = false;
            }
            j = j + 1;
        }
        if same {
            assert(s.subrange(k as int, k + m) =~= p@);
            return true;
        }
        assert(cs@[from + k + 0] == cs@[from + k + 0]);
        assert(s.subrange(k as int, k + m) != p@) by {
            let t = choose|t: int| 0 <= t < m && cs@[from + k + t] != p@[t];
            assert(s.subrange(k as int, k + m)[t] == cs@[from + k + t]);
        }
        k = k + 1;
    }
    assert forall|j: int| 0 <= j && j + m <= s.len() implies #[trigger] s.subrange(j, j + m) != p@ by {
        assert(j < k);
    }
    false
}

/// A line without its one trailing carriage return, if it has one.
pub open spec fn strip_cr(line: Seq<char>) -> Seq<char> {
    if line.len() > 0 && line.last() == '\r' {
        line.drop_last()
    } else {
        line
    }
}

/// The lines of `s` (`str::lines`): cut at each `\n`, a `\r` just before it dropped,
/// no empty line after a final `\n`; `out` and `cur` hold what was already read.
pub open spec fn lines_acc(s: Seq<char>, out: Seq<Seq<char>>, cur: Seq<char>) -> Seq<Seq<char>>
    decreases s.len(),
{
    if s.len() == 0 {
        if cur.len() == 0 {
            out
        } else {
            out.push(cur)
        }
    } else if s[0] == '\n' {
        lines_acc(s.drop_first(), out.push(strip_cr(cur)), Seq::empty())
    } else {
        lines_acc(s.drop_first(), out, cur.push(s[0]))
    }
}

pub open spec fn lines_spec(s: Seq<char>) -> Seq<Seq<char>> {
    lines_acc(s, Seq::empty(), Seq::empty())
}

/// Bounds, inside `cs`, of the lines of `cs`.
pub fn line_bounds(cs: &[char]) -> (r: Vec<(usize, usize)>)
    ensures
        pieces_of(cs@, r@) == lines_spec(cs@),
        forall|k: int| 0 <= k < r@.len() ==> (#[trigger] r@[k]).0 <= r@[k].1 && r@[k].1 <= cs@.len(),
{
    let n = cs.len();
    let mut r: Vec<(usize, usize)> = Vec::new();
    let mut start: usize = 0;
    let mut i: usize = 0;
    assert(cs@.subrange(0, n as int) =~= cs@);
    assert(cs@.subrange(0, 0) =~= Seq::<char>::empty());
    assert(pieces_of(cs@, r@) =~= Seq::<Seq<char>>::empty());
    while i < n
        invariant
            n == cs@.len(),
            start <= i <= n,
            forall|k: int| 0 <= k < r@.len() ==> (#[trigger] r@[k]).0 <= r@[k].1 && r@[k].1 <= cs@.len(),
            lines_spec(cs@) == lines_acc(
                cs@.subrange(i as int, n as int),
                pieces_of(cs@, r@),
                cs@.subrange(start as int, i as int),
            ),
        decreases n - i,
    {
        let ghost rest = cs@.subrange(i as int, n as int);
        assert(rest[0] == cs@[i as int]);
        assert(rest.drop_first() =~= cs@.subrange(i + 1, n as int));
        if cs[i] == '\n' {
            let ghost old_pieces = pieces_of(cs@, r@);
            let ghost cur = cs@.subrange(start as int, i as int);
            let mut end = i;
            if i > start && cs[i - 1] == '\r' {
                end = i - 1;
                assert(cur.drop_last() =~= cs@.subrange(start as int, end as int));
            }
            assert(start <= end <= n);
            r.push((start, end));
            assert(forall|k: int| 0 <= k < r@.len() ==> (#[trigger] r@[k]).0 <= r@[k].1 && r@[k].1 <= cs@.len());
            assert(pieces_of(cs@, r@) =~= old_pieces.push(strip_cr(cur)));
            i = i + 1;
            start = i;
            assert(cs@.subrange(start as int, i as int) =~= Seq::<char>::empty());
        } else {
            assert(cs@.subrange(start as int, i + 1) =~= cs@.subrange(start as int, i as int).push(cs@[i as int]));
            i = i + 1;
        }
    }
    assert(cs@.subrange(i as int, n as int) =~= Seq::<char>::empty());
    if start < n {
        let ghost old_pieces = pieces_of(cs@, r@);
        r.push((start, n));
        assert(pieces_of(cs@, r@) =~= old_pieces.push(cs@.subrange(start as int, n as int)));
    }
    r
}


/// The message that `std::str::Utf8Error` displays for bytes that are no valid UTF-8.
pub uninterp spec fn utf8_error_text(bytes: Seq<u8>) -> Seq<char>;

/// `std::str::from_utf8`, the text copied into a `String`, the error turned into its message.
/// Trusted: succeeds exactly on valid UTF-8 and then holds the decoded characters; the
/// error message is named, not stated.
#[verifier::external_body]
pub(crate) fn from_utf8(bytes: &[u8]) -> (r: Result<String, String>)
    ensures
        r is Ok <==> valid_utf8(bytes@),
        r matches Ok(s) ==> s@ == decode_utf8(bytes@),
        r matches Err(m) ==> m@ == utf8_error_text(bytes@),
{
    match std::str::from_utf8(bytes) {
        Ok(s) => Ok(String::from(s)),
        Err(e) => Err(e.to_string()),
    }
}

/// The UTF-8 bytes of `s`.
pub fn utf8_bytes(s: &str) -> (r: Vec<u8>)
    ensures
        r@ == encode_utf8(s@),
{
    vstd::slice::slice_to_vec(s.as_bytes())
}


/// The lowercase form of `s`, as `str::to_lowercase` computes it (Unicode lowercase mapping).
pub uninterp spec fn lowercase(s: Seq<char>) -> Seq<char>;

/// Whether `c` is an ASCII character.
pub open spec fn is_ascii_char(c: char) -> bool {
    (c as u32) < 128
}

/// Whether every character of `s` is ASCII.
pub open spec fn all_ascii(s: Seq<char>) -> bool {
    forall|i: int| 0 <= i < s.len() ==> is_ascii_char(#[trigger] s[i])
}

/// The ASCII lowercase of `c`: `A` to `Z` become `a` to `z`, every other
/// character stays.
pub open spec fn ascii_lower(c: char) -> char {
    if 'A' <= c && c <= 'Z' {
        ((c as u32) + 32) as char
    } else {
        c
    }
}

/// `s` with each character in ASCII lowercase.
pub open spec fn ascii_lowercase(s: Seq<char>) -> Seq<char> {
    s.map_values(|c: char| ascii_lower(c))
}

/// `str::to_lowercase`. Trusted: the result is the named lowercase form of
/// `s`; on ASCII text, the Unicode lowercase mapping that std documents for
/// this function maps `A` to `Z` to `a` to `z` and keeps every other
/// character. What it does to other characters is only named.
#[verifier::external_body]
pub(crate) fn to_lowercase(s: &str) -> (r: String)
    ensures
        r@ == lowercase(s@),
        all_ascii(s@) ==> r@ == ascii_lowercase(s@),
{
    s.to_lowercase()
}

} // verus!
