//! A byte buffer whose pieces are read as text.

use vstd::prelude::*;
use vstd::utf8::{valid_utf8, decode_utf8};
use crate::text::from_utf8;

verus! {

/// A byte buffer.
pub struct Demo {
    v: Vec<u8>,
}

impl View for Demo {
    type V = Seq<u8>;

    closed spec fn view(&self) -> Seq<u8> {
        self.v@
    }
}

impl Demo {
    /// A buffer holding `v`.
    pub fn new(v: Vec<u8>) -> (r: Demo)
        ensures
            r@ == v@,
    {
        Demo { v }
    }

    /// The text of bytes `s..e`, which must be valid UTF-8.
    pub fn get_slice(&self, s: usize, e: usize) -> (r: String)
        requires
            s <= e <= self@.len(),
            valid_utf8(self@.subrange(s as int, e as int)),
        ensures
            r@ == decode_utf8(self@.subrange(s as int, e as int)),
    {
        let piece = vstd::slice::slice_subrange(self.v.as_slice(), s, e);
        match from_utf8(piece) {
            Ok(text) => text,
            Err(_) => {
                proof {
                    assert(false);
                }
                String::new()
            },
        }
    }

    /// Replaces the bytes by `data`.
    pub fn change_and_drop(&mut self, data: Vec<u8>)
        ensures
            final(self)@ == data@,
    {
        self.v = data
    }
}

} // verus!
