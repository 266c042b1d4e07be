//! A box that counts how often it is looked into: each look shows the
//! counter and, until the counter reaches 5, counts up and looks again.

use vstd::prelude::*;

verus! {

/// A value with an access counter.
pub struct MyBox<T> {
    data: T,
    i: i32,
}

/// The counter values that one look shows, starting from `i`: `i` itself,
/// then every value up to 5 when `i` is below 5.
pub open spec fn shown_counters(i: int) -> Seq<int>
    decreases 5 - i,
{
    if i >= 5 {
        seq![i]
    } else {
        seq![i] + shown_counters(i + 1)
    }
}

impl<T> MyBox<T> {
    /// The boxed value.
    pub closed spec fn value(&self) -> T {
        self.data
    }

    /// The access counter.
    pub closed spec fn counter(&self) -> int {
        self.i as int
    }

    /// A box holding `data`, never looked into.
    pub fn new(data: T) -> (r: MyBox<T>)
        ensures
            r.value() == data,
            r.counter() == 0,
    {
        MyBox { data, i: 0 }
    }

    /// The counter values that the next look shows, in order.
    pub fn shown(&self) -> (r: Vec<i32>)
        ensures
            r@.map_values(|x: i32| x as int) == shown_counters(self.counter()),
    {
        let mut r: Vec<i32> = Vec::new();
        let mut c = self.i;
        r.push(c);
        assert(r@.map_values(|x: i32| x as int) =~= seq![self.i as int]);
        while c < 5
            invariant
                self.i <= c,
                self.i >= 5 ==> c == self.i,
                self.i < 5 ==> c <= 5,
                r@.map_values(|x: i32| x as int) + (if c >= 5 {
                    Seq::<int>::empty()
                } else {
                    shown_counters(c + 1)
                }) == shown_counters(self.i as int),
            decreases 5 - c,
        {
            let ghost before = r@;
            c = c + 1;
            r.push(c);
            assert(r@.map_values(|x: i32| x as int) =~= before.map_values(|x: i32| x as int).push(c as int));
            if c >= 5 {
                assert(shown_counters(c as int) =~= seq![c as int]);
            }
        }
        r
    }

    /// Looks into the box: the counter becomes at least 5, the value is returned.
    pub fn deref(&mut self) -> (r: &T)
        ensures
            *r == old(self).value(),
            final(self).value() == old(self).value(),
            final(self).counter() == if old(self).counter() >= 5 {
                old(self).counter()
            } else {
                5
            },
    {
        while self.i < 5
            invariant
                self.data == old(self).data,
                self.i >= old(self).i,
                old(self).i < 5 ==> self.i <= 5,
                old(self).i >= 5 ==> self.i == old(self).i,
            decreases 5 - self.i,
        {
            self.i = self.i + 1;
        }
        &self.data
    }
}

} // verus!
