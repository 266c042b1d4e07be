//! Header fields: names mapped to values, each name present once,
//! in the order in which names were first inserted.

use vstd::prelude::*;

verus! {

/// Header entries as text: (name, value) pairs.
pub type HeaderSeq = Seq<(Seq<char>, Seq<char>)>;

/// No name occurs twice.
pub open spec fn distinct_names(es: HeaderSeq) -> bool {
    forall|i: int, j: int| 0 <= i < es.len() && 0 <= j < es.len() && i != j ==> #[trigger] es[i].0 != #[trigger] es[j].0
}

/// Whether some entry has name `k`.
pub open spec fn has_name(es: HeaderSeq, k: Seq<char>) -> bool {
    exists|i: int| 0 <= i < es.len() && #[trigger] es[i].0 == k
}

/// The position of the entry named `k`.
pub open spec fn name_index(es: HeaderSeq, k: Seq<char>) -> int {
    choose|i: int| 0 <= i < es.len() && #[trigger] es[i].0 == k
}

/// The value of the entry named `k`, if there is one.
pub open spec fn lookup(es: HeaderSeq, k: Seq<char>) -> Option<Seq<char>> {
    if has_name(es, k) {
        Some(es[name_index(es, k)].1)
    } else {
        None
    }
}

/// The entries after `k` is given the value `v`: an entry named `k` keeps its place
/// and takes the new value; otherwise a new entry comes last.
pub open spec fn insert_spec(es: HeaderSeq, k: Seq<char>, v: Seq<char>) -> HeaderSeq {
    if has_name(es, k) {
        es.update(name_index(es, k), (k, v))
    } else {
        es.push((k, v))
    }
}

/// Header fields of a request or a response.
pub struct Headers {
    entries: Vec<(String, String)>,
}

impl View for Headers {
    type V = HeaderSeq;

    closed spec fn view(&self) -> HeaderSeq {
        Seq::new(self.entries@.len(), |i: int| (self.entries@[i].0@, self.entries@[i].1@))
    }
}

impl Headers {
    #[verifier::type_invariant]
    pub open spec fn inv(self) -> bool {
        distinct_names(self@)
    }

    /// No header fields.
    pub fn new() -> (r: Headers)
        ensures
            r@ == Seq::<(Seq<char>, Seq<char>)>::empty(),
            distinct_names(r@),
    {
        let r = Headers { entries: Vec::new() };
        assert(r@ =~= Seq::<(Seq<char>, Seq<char>)>::empty());
        r
    }

    /// How many fields there are.
    pub fn len(&self) -> (r: usize)
        ensures
            r == self@.len(),
    {
        self.entries.len()
    }

    /// The `i`-th field, in insertion order of names.
    pub fn entry(&self, i: usize) -> (r: (&String, &String))
        requires
            i < self@.len(),
        ensures
            r.0@ == self@[i as int].0,
            r.1@ == self@[i as int].1,
    {
        let e = &self.entries[i];
        (&e.0, &e.1)
    }

    fn position(&self, k: &String) -> (r: Option<usize>)
        ensures
            match r {
                Some(i) => i < self@.len() && self@[i as int].0 == k@,
                None => !has_name(self@, k@),
            },
    {
        let n = self.entries.len();
        let mut i: usize = 0;
        while i < n
            invariant
                n == self@.len(),
                i <= n,
                forall|j: int| 0 <= j < i ==> #[trigger] self@[j].0 != k@,
            decreases n - i,
        {
            if self.entries[i].0 == *k {
                return Some(i);
            }
            i = i + 1;
        }
        None
    }

    /// The value of field `k`.
    pub fn get(&self, k: &String) -> (r: Option<&String>)
        ensures
            match lookup(self@, k@) {
                Some(v) => r matches Some(s) && s@ == v,
                None => r is None,
            },
    {
        proof {
            use_type_invariant(self);
        }
        match self.position(k) {
            Some(i) => {
                assert(has_name(self@, k@));
                let ghost j = name_index(self@, k@);
                assert(self@[j].0 == k@);
                assert(j == i);
                Some(&self.entries[i].1)
            },
            None => None,
        }
    }

    /// Gives field `k` the value `v`; returns the value it had.
    pub fn insert(&mut self, k: String, v: String) -> (r: Option<String>)
        ensures
            final(self)@ == insert_spec(old(self)@, k@, v@),
            distinct_names(old(self)@),
            distinct_names(final(self)@),
            match lookup(old(self)@, k@) {
                Some(w) => r matches Some(s) && s@ == w,
                None => r is None,
            },
    {
        proof {
            use_type_invariant(&*self);
        }
        let ghost old_view = self@;
        match self.position(&k) {
            Some(i) => {
                assert(has_name(old_view, k@));
                let ghost j = name_index(old_view, k@);
                assert(old_view[j].0 == k@);
                assert(j == i);
                let mut entries = Vec::new();
                std::mem::swap(&mut entries, &mut self.entries);
                let old_entry = entries.remove(i);
                entries.insert(i, (k, v));
                let ghost new_view = Seq::new(entries@.len(), |t: int| (entries@[t].0@, entries@[t].1@));
                assert(new_view =~= insert_spec(old_view, k@, v@));
                std::mem::swap(&mut entries, &mut self.entries);
                assert(self@ =~= new_view);
                proof {
                    law_lookup_after_insert(old_view, k@, v@);
                }
                Some(old_entry.1)
            },
            None => {
                let mut entries = Vec::new();
                std::mem::swap(&mut entries, &mut self.entries);
                entries.push((k, v));
                let ghost new_view = Seq::new(entries@.len(), |t: int| (entries@[t].0@, entries@[t].1@));
                assert(new_view =~= insert_spec(old_view, k@, v@));
                std::mem::swap(&mut entries, &mut self.entries);
                assert(self@ =~= new_view);
                proof {
                    law_lookup_after_insert(old_view, k@, v@);
                }
                None
            },
        }
    }
}

/// A field reads back the value it was last given.
pub proof fn law_lookup_after_insert(es: HeaderSeq, k: Seq<char>, v: Seq<char>)
    requires
        distinct_names(es),
    ensures
        lookup(insert_spec(es, k, v), k) == Some(v),
        distinct_names(insert_spec(es, k, v)),
{
    let es2 = insert_spec(es, k, v);
    if has_name(es, k) {
        let i = name_index(es, k);
        assert(es2[i].0 == k);
    } else {
        assert(es2[es.len() as int].0 == k);
    }
    let j = name_index(es2, k);
    assert(es2[j].0 == k);
}

/// Giving one field a value leaves every other field as it was.
pub proof fn law_insert_keeps_others(es: HeaderSeq, k: Seq<char>, v: Seq<char>, other: Seq<char>)
    requires
        distinct_names(es),
        other != k,
    ensures
        lookup(insert_spec(es, k, v), other) == lookup(es, other),
{
    let es2 = insert_spec(es, k, v);
    law_lookup_after_insert(es, k, v);
    if has_name(es, other) {
        let i = name_index(es, other);
        assert(es2[i].0 == other);
        let j = name_index(es2, other);
        assert(es2[j].0 == other);
    } else {
        if has_name(es2, other) {
            let j = name_index(es2, other);
            assert(es2[j].0 == other);
            if j < es.len() {
                assert(es[j].0 == other);
            }
        }
    }
}

} // verus!
