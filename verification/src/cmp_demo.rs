//! The largest element of a list, for any partially ordered element type, and
//! a record ordered by its one number.

use vstd::prelude::*;
use vstd::std_specs::cmp::{PartialOrdSpec, PartialEqSpecImpl, PartialOrdSpecImpl};
use std::cmp::Ordering;

verus! {

/// The element kept after scanning `s` from left to right, starting from `acc`:
/// an element replaces the kept one when it compares greater.
pub open spec fn largest_from<T: PartialOrd>(s: Seq<T>, acc: T) -> T
    decreases s.len(),
{
    if s.len() == 0 {
        acc
    } else {
        let next = if s[0].partial_cmp_spec(&acc) == Some(Ordering::Greater) {
            s[0]
        } else {
            acc
        };
        largest_from(s.drop_first(), next)
    }
}

/// `s` from index `i` on.
pub open spec fn suffix<T>(s: Seq<T>, i: usize) -> Seq<T> {
    s.subrange(i as int, s.len() as int)
}

proof fn lemma_suffix_step<T>(s: Seq<T>, i: usize)
    requires
        i < s.len() <= usize::MAX,
    ensures
        suffix(s, i)[0] == s[i as int],
        suffix(s, i).drop_first() == suffix(s, (i + 1) as usize),
{
    assert(suffix(s, i).drop_first() =~= suffix(s, (i + 1) as usize));
}

proof fn lemma_suffix_ends<T>(s: Seq<T>, n: usize)
    requires
        n == s.len(),
    ensures
        suffix(s, 0) == s,
        suffix(s, n) == Seq::<T>::empty(),
{
    assert(suffix(s, 0) =~= s);
    assert(suffix(s, n) =~= Seq::<T>::empty());
}

/// The largest element of a non-empty list: the first of the list, replaced
/// by every later element that compares greater than the one kept.
pub fn largest<T: PartialOrd + Copy>(list: &[T]) -> (r: T)
    requires
        list@.len() > 0,
    ensures
        T::obeys_partial_cmp_spec() ==> r == largest_from(list@, list@[0]),
{
    let mut largest = list[0];
    let mut i: usize = 0;
    proof {
        lemma_suffix_ends(list@, list.len());
    }
    while i < list.len()
        invariant
            i <= list@.len(),
            T::obeys_partial_cmp_spec() ==> largest_from(list@, list@[0]) == largest_from(
                suffix(list@, i),
                largest,
            ),
        decreases list@.len() - i,
    {
        let item = list[i];
        proof {
            lemma_suffix_step(list@, i);
        }
        if item > largest {
            largest = item;
        }
        i = i + 1;
    }
    proof {
        lemma_suffix_ends(list@, list.len());
    }
    largest
}

/// The largest element of a non-empty list of integers is in the list and no
/// element is greater.
pub proof fn law_largest_is_maximum(s: Seq<i32>, acc: i32)
    ensures
        s.contains(largest_from(s, acc)) || largest_from(s, acc) == acc,
        largest_from(s, acc) >= acc,
        forall|i: int| 0 <= i < s.len() ==> s[i] <= largest_from(s, acc),
    decreases s.len(),
{
    if s.len() > 0 {
        let next = if s[0] > acc {
            s[0]
        } else {
            acc
        };
        law_largest_is_maximum(s.drop_first(), next);
        let r = largest_from(s, acc);
        assert(r == largest_from(s.drop_first(), next));
        assert forall|i: int| 0 <= i < s.len() implies s[i] <= r by {
            if i > 0 {
                assert(s[i] == s.drop_first()[i - 1]);
            }
        }
        if s.drop_first().contains(r) {
            let j = choose|j: int| 0 <= j < s.drop_first().len() && s.drop_first()[j] == r;
            assert(s[j + 1] == r);
        } else if r == next && next == s[0] {
            assert(s[0] == r);
        }
    }
}

/// A record ordered by its number.
#[allow(non_snake_case)]
pub struct A {
    pub A: i32,
}

impl PartialEq for A {
    fn eq(&self, other: &Self) -> (r: bool) {
        self.A == other.A
    }
}

impl PartialEqSpecImpl for A {
    open spec fn obeys_eq_spec() -> bool {
        true
    }

    open spec fn eq_spec(&self, other: &A) -> bool {
        self.A == other.A
    }
}

impl PartialOrd for A {
    fn partial_cmp(&self, other: &Self) -> (r: Option<Ordering>) {
        self.A.partial_cmp(&other.A)
    }
}

impl PartialOrdSpecImpl for A {
    open spec fn obeys_partial_cmp_spec() -> bool {
        true
    }

    open spec fn partial_cmp_spec(&self, other: &A) -> Option<Ordering> {
        if self.A < other.A {
            Some(Ordering::Less)
        } else if self.A > other.A {
            Some(Ordering::Greater)
        } else {
            Some(Ordering::Equal)
        }
    }
}

} // verus!
