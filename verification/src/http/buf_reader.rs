//! A byte buffer that hands out lines and fixed-size blocks of a stream.
//!
//! The reader does not read by itself: when it needs more bytes it answers
//! with a `Read` step naming how many bytes to read at most; whoever owns the
//! stream reads them and hands them over with `feed`, then asks again.

use vstd::prelude::*;
use vstd::utf8::*;
use crate::text::{from_utf8, utf8_bytes, utf8_error_text};
use crate::http::error::HttpError;

verus! {

/// Size of the scratch area that one read fills at most.
pub const TRUCK_BUF_LEN: usize = 1024;

/// What a line read ends with.
pub enum LineStep {
    /// The line, or why there is none.
    Line(Result<String, HttpError>),
    /// Read at most this many bytes, `feed` them, and ask again.
    Read(usize),
}

/// What a block read ends with.
pub enum SizeStep {
    /// The block.
    Bytes(Vec<u8>),
    /// Read at most this many bytes, `feed` them, and ask again.
    Read(usize),
}

/// Bytes received so far, the read position in them, the line separator
/// and the most bytes that one read asks for.
pub struct BufferReader {
    buf: Vec<u8>,
    pos: usize,
    line_sep: Vec<u8>,
    truck_size: usize,
    starved: bool,
}

/// Where the separator `sep` is first complete when bytes are matched against it
/// from index `i` on, `k` of its bytes being matched already: a byte that does not
/// match sends the match back to the separator's start (it is not tried again).
pub open spec fn scan_sep(b: Seq<u8>, sep: Seq<u8>, i: int, k: int) -> Option<int>
    decreases b.len() - i,
{
    if i < 0 || i >= b.len() || k < 0 || k >= sep.len() {
        None
    } else if b[i] == sep[k] {
        if k + 1 == sep.len() {
            Some(i + 1)
        } else {
            scan_sep(b, sep, i + 1, k + 1)
        }
    } else {
        scan_sep(b, sep, i + 1, 0)
    }
}

/// `r` is the UTF-8 text of `bytes`, or the error that says they are none.
pub open spec fn decodes_to(bytes: Seq<u8>, r: Result<String, HttpError>) -> bool {
    if valid_utf8(bytes) {
        r matches Ok(s) && s@ == decode_utf8(bytes)
    } else {
        r matches Err(HttpError::InvalidUtf8(m)) && m@ == utf8_error_text(bytes)
    }
}

pub proof fn lemma_scan_sep_bounds(b: Seq<u8>, sep: Seq<u8>, i: int, k: int)
    requires
        0 <= k < sep.len(),
    ensures
        scan_sep(b, sep, i, k) matches Some(e) ==> i + sep.len() - k <= e <= b.len(),
    decreases b.len() - i,
{
    if 0 <= i < b.len() {
        if b[i] == sep[k] {
            if k + 1 < sep.len() {
                lemma_scan_sep_bounds(b, sep, i + 1, k + 1);
            }
        } else {
            lemma_scan_sep_bounds(b, sep, i + 1, 0);
        }
    }
}

fn decode_line(bytes: &[u8]) -> (r: Result<String, HttpError>)
    ensures
        decodes_to(bytes@, r),
{
    match from_utf8(bytes) {
        Ok(s) => Ok(s),
        Err(m) => Err(HttpError::InvalidUtf8(m)),
    }
}

/// A line read, as text.
pub enum LineSpec {
    /// The decoded line.
    Text(Seq<char>),
    /// The line's bytes are no UTF-8; the error's message.
    BadUtf8(Seq<char>),
    /// The stream ended first.
    Eof,
    /// A read of at most this many bytes is asked for.
    Read(int),
}

/// The decoding of a line's bytes.
pub open spec fn decode_spec(bytes: Seq<u8>) -> LineSpec {
    if valid_utf8(bytes) {
        LineSpec::Text(decode_utf8(bytes))
    } else {
        LineSpec::BadUtf8(utf8_error_text(bytes))
    }
}

/// The outcome of a line read on the buffer `b` read up to `p`, with separator `sep`,
/// `starved` telling whether the last bytes handed over were none, and the read
/// position afterwards. A line runs up to the separator's first completion (the
/// separator is consumed, not returned); an empty separator makes one byte a line.
/// With no complete line buffered a read is asked for, unless the last read brought
/// nothing: then the stream has ended and all buffered bytes count as consumed.
pub open spec fn next_line(b: Seq<u8>, p: int, sep: Seq<u8>, starved: bool, truck: int) -> (LineSpec, int) {
    if sep.len() == 0 {
        if p < b.len() {
            (decode_spec(seq![b[p]]), p + 1)
        } else if starved {
            (LineSpec::Eof, p)
        } else {
            (LineSpec::Read(truck), p)
        }
    } else {
        match scan_sep(b, sep, p, 0) {
            Some(e) => (decode_spec(b.subrange(p, e - sep.len())), e),
            None => if starved {
                (LineSpec::Eof, b.len() as int)
            } else {
                (LineSpec::Read(truck), p)
            },
        }
    }
}

/// A line step returned is the one described.
pub open spec fn line_step_is(r: LineStep, l: LineSpec) -> bool {
    match l {
        LineSpec::Text(t) => r matches LineStep::Line(Ok(s)) && s@ == t,
        LineSpec::BadUtf8(m) => r matches LineStep::Line(Err(HttpError::InvalidUtf8(s))) && s@ == m,
        LineSpec::Eof => r matches LineStep::Line(Err(HttpError::Eof)),
        LineSpec::Read(n) => r matches LineStep::Read(k) && k == n,
    }
}

proof fn lemma_decodes(bytes: Seq<u8>, r: Result<String, HttpError>)
    requires
        decodes_to(bytes, r),
    ensures
        line_step_is(LineStep::Line(r), decode_spec(bytes)),
{
}

proof fn lemma_scan_line(b: Seq<u8>, sep: Seq<u8>, i: int, end: int)
    requires
        sep.len() > 0,
        0 <= i <= end,
        end + sep.len() <= b.len(),
        forall|j: int| i <= j < end ==> b[j] != sep[0],
        b.subrange(end, end + sep.len()) == sep,
    ensures
        scan_sep(b, sep, i, 0) == Some(end + sep.len()),
    decreases end - i,
{
    if i < end {
        lemma_scan_line(b, sep, i + 1, end);
    } else {
        lemma_scan_sep_match(b, sep, end, 0);
    }
}

proof fn lemma_scan_sep_match(b: Seq<u8>, sep: Seq<u8>, start: int, k: int)
    requires
        0 <= k < sep.len(),
        0 <= start,
        start + sep.len() <= b.len(),
        b.subrange(start, start + sep.len()) == sep,
    ensures
        scan_sep(b, sep, start + k, k) == Some(start + sep.len()),
    decreases sep.len() - k,
{
    assert(b[start + k] == b.subrange(start, start + sep.len())[k]);
    if k + 1 < sep.len() {
        lemma_scan_sep_match(b, sep, start, k + 1);
    }
}

/// A line followed by the separator reads back as that line, when none of its
/// bytes is the separator's first byte: the separator is consumed, whatever
/// follows stays buffered.
pub proof fn law_line_read_back(before: Seq<u8>, line: Seq<u8>, sep: Seq<u8>, after: Seq<u8>, starved: bool, truck: int)
    requires
        sep.len() > 0,
        forall|j: int| 0 <= j < line.len() ==> line[j] != sep[0],
    ensures
        next_line(before + line + sep + after, before.len() as int, sep, starved, truck) == (
            decode_spec(line),
            (before.len() + line.len() + sep.len()) as int,
        ),
{
    let b = before + line + sep + after;
    let p = before.len() as int;
    let end = p + line.len();
    assert forall|j: int| p <= j < end implies b[j] != sep[0] by {
        assert(b[j] == line[j - p]);
    }
    assert(b.subrange(end, end + sep.len()) =~= sep);
    lemma_scan_line(b, sep, p, end);
    assert(b.subrange(p, end) =~= line);
}

/// Text written in UTF-8 and followed by the separator reads back as the same
/// text, when no byte of its encoding is the separator's first byte.
pub proof fn law_text_line_read_back(before: Seq<u8>, text: Seq<char>, sep: Seq<u8>, after: Seq<u8>, starved: bool, truck: int)
    requires
        sep.len() > 0,
        forall|j: int| 0 <= j < encode_utf8(text).len() ==> encode_utf8(text)[j] != sep[0],
    ensures
        next_line(before + encode_utf8(text) + sep + after, before.len() as int, sep, starved, truck)
            == (LineSpec::Text(text), (before.len() + encode_utf8(text).len() + sep.len()) as int),
{
    law_line_read_back(before, encode_utf8(text), sep, after, starved, truck);
    vstd::utf8::encode_utf8_valid_utf8(text);
    vstd::utf8::encode_utf8_decode_utf8(text);
}

impl BufferReader {
    pub closed spec fn wf(&self) -> bool {
        &&& self.pos <= self.buf@.len()
        &&& self.truck_size <= TRUCK_BUF_LEN
    }

    /// All bytes received so far.
    pub closed spec fn buffered(&self) -> Seq<u8> {
        self.buf@
    }

    /// How many of them have been consumed.
    pub closed spec fn position(&self) -> int {
        self.pos as int
    }

    /// The bytes that end a line.
    pub closed spec fn separator(&self) -> Seq<u8> {
        self.line_sep@
    }

    /// The most bytes that one read asks for.
    pub closed spec fn truck(&self) -> int {
        self.truck_size as int
    }

    /// Whether the last bytes handed over were none at all.
    pub closed spec fn starved(&self) -> bool {
        self.starved
    }

    /// An empty reader: lines end with `\n`, reads ask for up to 1024 bytes.
    pub fn new() -> (r: BufferReader)
        ensures
            r.wf(),
            r.buffered() == Seq::<u8>::empty(),
            r.position() == 0,
            r.separator() == seq![10u8],
            r.truck() == TRUCK_BUF_LEN,
            !r.starved(),
    {
        let mut sep: Vec<u8> = Vec::new();
        sep.push(10u8);
        BufferReader {
            buf: Vec::new(),
            pos: 0,
            line_sep: sep,
            truck_size: TRUCK_BUF_LEN,
            starved: false,
        }
    }

    /// Sets the most bytes that one read asks for; reads fill a scratch area
    /// of `TRUCK_BUF_LEN` bytes, so no larger size can be read.
    pub fn set_truck_size(&mut self, size: usize)
        requires
            old(self).wf(),
            size <= TRUCK_BUF_LEN,
        ensures
            final(self).wf(),
            final(self).truck() == size,
            final(self).buffered() == old(self).buffered(),
            final(self).position() == old(self).position(),
            final(self).separator() == old(self).separator(),
            final(self).starved() == old(self).starved(),
    {
        self.truck_size = size;
    }

    /// Sets the line separator to the UTF-8 bytes of `sep`.
    pub fn set_line_sep(&mut self, sep: &str)
        requires
            old(self).wf(),
        ensures
            final(self).wf(),
            final(self).separator() == encode_utf8(sep@),
            final(self).truck() == old(self).truck(),
            final(self).buffered() == old(self).buffered(),
            final(self).position() == old(self).position(),
            final(self).starved() == old(self).starved(),
    {
        self.line_sep = utf8_bytes(sep);
    }

    /// Hands over the bytes that a read returned.
    pub fn feed(&mut self, data: &[u8])
        requires
            old(self).wf(),
        ensures
            final(self).wf(),
            final(self).buffered() == old(self).buffered() + data@,
            final(self).position() == old(self).position(),
            final(self).separator() == old(self).separator(),
            final(self).truck() == old(self).truck(),
            final(self).starved() == (data@.len() == 0),
    {
        self.buf.extend_from_slice(data);
        self.starved = data.len() == 0;
    }

    /// Where the separator is first complete after the read position.
    fn find_sep(&self) -> (r: Option<usize>)
        requires
            self.wf(),
            self.line_sep@.len() > 0,
        ensures
            match scan_sep(self.buf@, self.line_sep@, self.pos as int, 0) {
                Some(e) => r == Some(e as usize),
                None => r is None,
            },
    {
        let n = self.buf.len();
        let m = self.line_sep.len();
        let mut i = self.pos;
        let mut k: usize = 0;
        while i < n
            invariant
                self.wf(),
                n == self.buf@.len(),
                m == self.line_sep@.len(),
                self.pos <= i <= n,
                k < m,
                scan_sep(self.buf@, self.line_sep@, self.pos as int, 0) == scan_sep(
                    self.buf@,
                    self.line_sep@,
                    i as int,
                    k as int,
                ),
            decreases n - i,
        {
            if self.buf[i] == self.line_sep[k] {
                if k + 1 == m {
                    return Some(i + 1);
                }
                k = k + 1;
            } else {
                k = 0;
            }
            i = i + 1;
        }
        None
    }

    /// Reads a line: the bytes from the read position up to the separator's first
    /// completion, decoded as UTF-8, the separator consumed but not returned. With
    /// an empty separator a line is one byte. When the buffer holds no complete
    /// line, asks for a read; when the bytes last handed over were none, the line
    /// fails with `Eof` and everything buffered counts as consumed.
    pub fn read_line(&mut self) -> (r: LineStep)
        requires
            old(self).wf(),
        ensures
            final(self).wf(),
            final(self).buffered() == old(self).buffered(),
            final(self).separator() == old(self).separator(),
            final(self).truck() == old(self).truck(),
            !final(self).starved(),
            ({
                let (l, p) = next_line(
                    old(self).buffered(),
                    old(self).position(),
                    old(self).separator(),
                    old(self).starved(),
                    old(self).truck(),
                );
                &&& final(self).position() == p
                &&& line_step_is(r, l)
            }),
    {
        let starved = self.starved;
        self.starved = false;
        if self.line_sep.len() == 0 {
            if self.pos < self.buf.len() {
                let mut one: Vec<u8> = Vec::new();
                one.push(self.buf[self.pos]);
                assert(one@ =~= seq![self.buf@[self.pos as int]]);
                self.pos = self.pos + 1;
                let res = decode_line(one.as_slice());
                proof {
                    lemma_decodes(one@, res);
                }
                return LineStep::Line(res);
            } else if starved {
                return LineStep::Line(Err(HttpError::Eof));
            } else {
                return LineStep::Read(self.truck_size);
            }
        }
        let total = self.buf.len();
        proof {
            lemma_scan_sep_bounds(self.buf@, self.line_sep@, self.pos as int, 0);
        }
        match self.find_sep() {
            Some(e) => {
                let ghost sp = scan_sep(self.buf@, self.line_sep@, self.pos as int, 0);
                assert(sp is Some);
                let ghost e2 = sp->0;
                assert(self.pos + self.line_sep@.len() <= e2 <= self.buf@.len());
                let start = self.pos;
                let end = e - self.line_sep.len();
                let line = vstd::slice::slice_subrange(self.buf.as_slice(), start, end);
                let res = decode_line(line);
                proof {
                    lemma_decodes(line@, res);
                }
                self.pos = e;
                LineStep::Line(res)
            },
            None => {
                if starved {
                    self.pos = self.buf.len();
                    LineStep::Line(Err(HttpError::Eof))
                } else {
                    LineStep::Read(self.truck_size)
                }
            },
        }
    }

    /// Reads a block of `size` bytes from the read position, without consuming it.
    /// While fewer are buffered, asks for a read of as many bytes as are buffered
    /// past the read position, but no more than the read size.
    pub fn read_size(&mut self, size: usize) -> (r: SizeStep)
        requires
            old(self).wf(),
        ensures
            final(self).wf(),
            final(self).buffered() == old(self).buffered(),
            final(self).position() == old(self).position(),
            final(self).separator() == old(self).separator(),
            final(self).truck() == old(self).truck(),
            !final(self).starved(),
            ({
                let b = old(self).buffered();
                let p = old(self).position();
                let left = b.len() - p;
                if left >= size {
                    r matches SizeStep::Bytes(v) && v@ == b.subrange(p, p + size)
                } else {
                    r matches SizeStep::Read(n) && n == (if left > old(self).truck() {
                        old(self).truck()
                    } else {
                        left
                    })
                }
            }),
    {
        self.starved = false;
        let left = self.buf.len() - self.pos;
        if left >= size {
            let block = vstd::slice::slice_subrange(self.buf.as_slice(), self.pos, self.pos + size);
            SizeStep::Bytes(vstd::slice::slice_to_vec(block))
        } else if left > self.truck_size {
            SizeStep::Read(self.truck_size)
        } else {
            SizeStep::Read(left)
        }
    }
}

} // verus!
