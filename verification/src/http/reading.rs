//! Reading a request from a stream: the request line, header lines up to an
//! empty line, then a body of the announced length.
//!
//! `RequestReader::step` takes one step at a time and says what it needs:
//! bytes read from the stream, the stream's read timeout armed after the
//! request line, another step, or nothing more (with the request or the error).

use vstd::prelude::*;
use crate::http::buf_reader::{BufferReader, LineStep, LineSpec, SizeStep, next_line, TRUCK_BUF_LEN, law_text_line_read_back};
use vstd::utf8::encode_utf8;
use crate::http::error::HttpError;
use crate::http::headers::insert_spec;
use crate::http::request::{Request, RequestView, empty_request, handle_special_header, special_header_effect};
use crate::text::{
    IntErrorKind,
    chars_of, find_char, find_spec, split_bounds, split_spec, string_from_chars, trim,
    trim_bounds, pieces_of,
};

verus! {

/// The three parts of a request line, split at single spaces.
pub open spec fn request_line_parts(line: Seq<char>) -> Option<(Seq<char>, Seq<char>, Seq<char>)> {
    let pieces = split_spec(line, ' ');
    if pieces.len() == 3 {
        Some((pieces[0], pieces[1], pieces[2]))
    } else {
        None
    }
}

/// The error for a request line that is not `method target version`.
pub fn err_bad_request<T>() -> (r: Result<T, HttpError>)
    ensures
        r == Err::<T, HttpError>(HttpError::BadRequest),
{
    Err(HttpError::BadRequest)
}

/// Method, target and version of a request line; `BadRequest` unless the line
/// splits at spaces into exactly three parts.
pub fn parse_request_line(line: &str) -> (r: Result<(String, String, String), HttpError>)
    ensures
        match request_line_parts(line@) {
            Some((m, u, v)) => r matches Ok((a, b, c)) && a@ == m && b@ == u && c@ == v,
            None => r == Err::<(String, String, String), HttpError>(HttpError::BadRequest),
        },
{
    let cs = chars_of(line);
    let bounds = split_bounds(cs.as_slice(), 0, cs.len(), ' ');
    assert(cs@.subrange(0, cs@.len() as int) =~= line@);
    if bounds.len() != 3 {
        return err_bad_request();
    }
    let ghost ps = pieces_of(cs@, bounds@);
    assert(ps[0] == cs@.subrange(bounds@[0].0 as int, bounds@[0].1 as int));
    assert(ps[1] == cs@.subrange(bounds@[1].0 as int, bounds@[1].1 as int));
    assert(ps[2] == cs@.subrange(bounds@[2].0 as int, bounds@[2].1 as int));
    let m = string_from_chars(cs.as_slice(), bounds[0].0, bounds[0].1);
    let u = string_from_chars(cs.as_slice(), bounds[1].0, bounds[1].1);
    let v = string_from_chars(cs.as_slice(), bounds[2].0, bounds[2].1);
    Ok((m, u, v))
}

/// A request line made of three space-free parts joined by single spaces reads
/// as those parts.
pub proof fn law_request_line_parts(m: Seq<char>, u: Seq<char>, v: Seq<char>)
    requires
        forall|j: int| 0 <= j < m.len() ==> m[j] != ' ',
        forall|j: int| 0 <= j < u.len() ==> u[j] != ' ',
        forall|j: int| 0 <= j < v.len() ==> v[j] != ' ',
    ensures
        request_line_parts(m + seq![' '] + u + seq![' '] + v) == Some((m, u, v)),
{
    crate::text::law_split_join3(m, u, v, ' ');
}

proof fn lemma_find_in_prefix(k: Seq<char>, rest: Seq<char>, c: char)
    requires
        forall|j: int| 0 <= j < k.len() ==> k[j] != c,
    ensures
        find_spec(k + seq![c] + rest, c) == Some(k.len() as int),
    decreases k.len(),
{
    let s = k + seq![c] + rest;
    if k.len() == 0 {
        assert(s[0] == c);
    } else {
        assert(s[0] == k[0]);
        assert(s.drop_first() =~= k.drop_first() + seq![c] + rest);
        lemma_find_in_prefix(k.drop_first(), rest, c);
    }
}

/// A header line `name:value`, the name free of `:`, reads as the trimmed name
/// and the trimmed value.
pub proof fn law_header_parts(k: Seq<char>, v: Seq<char>)
    requires
        forall|j: int| 0 <= j < k.len() ==> k[j] != ':',
    ensures
        header_parts(k + seq![':'] + v) == (trim(k), trim(v)),
{
    let line = k + seq![':'] + v;
    lemma_find_in_prefix(k, v, ':');
    assert(line.subrange(0, k.len() as int) =~= k);
    assert(line.subrange(k.len() as int + 1, line.len() as int) =~= v);
}

/// Name and value of a header line: split at the first `:` (the value is empty
/// when there is none), both trimmed of whitespace.
pub open spec fn header_parts(line: Seq<char>) -> (Seq<char>, Seq<char>) {
    match find_spec(line, ':') {
        Some(i) => (trim(line.subrange(0, i)), trim(line.subrange(i + 1, line.len() as int))),
        None => (trim(line), Seq::empty()),
    }
}

/// The trimmed name and value of a header line.
pub fn split_header(line: &str) -> (r: (String, String))
    ensures
        r.0@ == header_parts(line@).0,
        r.1@ == header_parts(line@).1,
{
    let cs = chars_of(line);
    let n = cs.len();
    assert(cs@.subrange(0, n as int) =~= line@);
    match find_char(cs.as_slice(), 0, n, ':') {
        Some(i) => {
            assert(cs@.subrange(0, i as int) == line@.subrange(0, i as int));
            let (a, b) = trim_bounds(cs.as_slice(), 0, i);
            let (c, d) = trim_bounds(cs.as_slice(), i + 1, n);
            (string_from_chars(cs.as_slice(), a, b), string_from_chars(cs.as_slice(), c, d))
        },
        None => {
            let (a, b) = trim_bounds(cs.as_slice(), 0, n);
            let empty = String::new();
            (string_from_chars(cs.as_slice(), a, b), empty)
        },
    }
}

/// Where a request's reading stands.
#[derive(Clone, Copy, PartialEq, Eq, Structural)]
pub enum ReadStage {
    /// Waiting for the request line.
    RequestLine,
    /// The request line is read, not yet split.
    RequestLineRead,
    /// Reading header lines.
    Headers,
    /// Reading the body.
    Body,
    /// Done.
    Finished,
}

/// What a step of reading needs next.
pub enum ReadAction {
    /// Read at most this many bytes from the stream and `feed` them.
    Read(usize),
    /// The request line has been read: arm the stream's read timeout.
    ArmTimeout,
    /// Take the next step.
    Continue,
    /// Reading is over, with the request or the error.
    Done(Result<Request, HttpError>),
}

/// The bytes `\r\n`.
pub open spec fn crlf() -> Seq<u8> {
    seq![13u8, 10u8]
}

/// The state of reading one request.
pub struct RequestReader {
    reader: BufferReader,
    req: Request,
    first_line: String,
    stage: ReadStage,
}

/// An error, as text and numbers.
pub enum ErrView {
    Eof,
    InvalidUtf8(Seq<char>),
    BadRequest,
    InvalidContentLength(IntErrorKind),
    Io(bool, Seq<char>),
    Handler(Seq<char>),
}

/// The view of an error.
pub open spec fn err_view(e: HttpError) -> ErrView {
    match e {
        HttpError::Eof => ErrView::Eof,
        HttpError::InvalidUtf8(m) => ErrView::InvalidUtf8(m@),
        HttpError::BadRequest => ErrView::BadRequest,
        HttpError::InvalidContentLength(k) => ErrView::InvalidContentLength(k),
        HttpError::Io { unexpected_eof, message } => ErrView::Io(unexpected_eof, message@),
        HttpError::Handler(m) => ErrView::Handler(m@),
    }
}

/// What a step needs next, as text and numbers.
pub enum ActionView {
    Read(int),
    ArmTimeout,
    Continue,
    Done(Result<RequestView, ErrView>),
}

/// The view of a step's answer.
pub open spec fn action_view(a: ReadAction) -> ActionView {
    match a {
        ReadAction::Read(n) => ActionView::Read(n as int),
        ReadAction::ArmTimeout => ActionView::ArmTimeout,
        ReadAction::Continue => ActionView::Continue,
        ReadAction::Done(Ok(r)) => ActionView::Done(Ok(r@)),
        ReadAction::Done(Err(e)) => ActionView::Done(Err(err_view(e))),
    }
}

/// The state of reading a request: where it stands, the bytes received and
/// how many are consumed, whether the last bytes handed over were none, the
/// most bytes one read asks for, the request so far and the request line.
pub struct ReaderState {
    pub stage: ReadStage,
    pub buf: Seq<u8>,
    pub pos: int,
    pub starved: bool,
    pub truck: int,
    pub req: RequestView,
    pub first_line: Seq<char>,
}

/// The state after a line read that failed.
pub open spec fn line_failed(s: ReaderState, l: LineSpec, p2: int) -> (ReaderState, ActionView) {
    match l {
        LineSpec::Read(n) => (ReaderState { pos: p2, starved: false, ..s }, ActionView::Read(n)),
        LineSpec::Eof => (
            ReaderState { stage: ReadStage::Finished, pos: p2, starved: false, ..s },
            ActionView::Done(Err(ErrView::Eof)),
        ),
        LineSpec::BadUtf8(m) => (
            ReaderState { stage: ReadStage::Finished, pos: p2, starved: false, ..s },
            ActionView::Done(Err(ErrView::InvalidUtf8(m))),
        ),
        LineSpec::Text(_) => (s, ActionView::Continue),
    }
}

/// One step of reading a request.
///
/// - Request line: reads a line; once it is there, asks to arm the timeout.
/// - Request line read: splits it into method, target and version, or fails
///   with `BadRequest`.
/// - Headers: reads a line; an empty one ends the headers, another one is split
///   into a trimmed name and value, its special effect applied (which may fail),
///   and stored.
/// - Body: once the announced number of bytes is buffered, the request is done
///   with them as its body.
///
/// A line read that needs bytes asks for a read; one that fails ends reading
/// with its error.
pub open spec fn step_spec(s: ReaderState) -> (ReaderState, ActionView) {
    let (l, p2) = next_line(s.buf, s.pos, crlf(), s.starved, s.truck);
    match s.stage {
        ReadStage::RequestLine => match l {
            LineSpec::Text(line) => (
                ReaderState {
                    stage: ReadStage::RequestLineRead,
                    pos: p2,
                    starved: false,
                    first_line: line,
                    ..s
                },
                ActionView::ArmTimeout,
            ),
            _ => line_failed(s, l, p2),
        },
        ReadStage::RequestLineRead => match request_line_parts(s.first_line) {
            Some((m, u, v)) => (
                ReaderState {
                    stage: ReadStage::Headers,
                    req: RequestView { method: m, uri: u, version: v, ..s.req },
                    ..s
                },
                ActionView::Continue,
            ),
            None => (
                ReaderState { stage: ReadStage::Finished, ..s },
                ActionView::Done(Err(ErrView::BadRequest)),
            ),
        },
        ReadStage::Headers => match l {
            LineSpec::Text(line) => if line.len() == 0 {
                (ReaderState { stage: ReadStage::Body, pos: p2, starved: false, ..s }, ActionView::Continue)
            } else {
                let (k, v) = header_parts(line);
                match special_header_effect(s.req.content_len, s.req.keep_alive, k, v) {
                    Ok((n, ka)) => (
                        ReaderState {
                            pos: p2,
                            starved: false,
                            req: RequestView {
                                content_len: n,
                                keep_alive: ka,
                                headers: insert_spec(s.req.headers, k, v),
                                ..s.req
                            },
                            ..s
                        },
                        ActionView::Continue,
                    ),
                    Err(e) => (
                        ReaderState { stage: ReadStage::Finished, pos: p2, starved: false, ..s },
                        ActionView::Done(Err(ErrView::InvalidContentLength(e))),
                    ),
                }
            },
            _ => line_failed(s, l, p2),
        },
        ReadStage::Body => {
            let left = s.buf.len() - s.pos;
            if left >= s.req.content_len {
                (
                    ReaderState {
                        stage: ReadStage::Finished,
                        starved: false,
                        req: empty_request(),
                        ..s
                    },
                    ActionView::Done(
                        Ok(RequestView { body: s.buf.subrange(s.pos, s.pos + s.req.content_len), ..s.req }),
                    ),
                )
            } else {
                (
                    ReaderState { starved: false, ..s },
                    ActionView::Read(
                        if left > s.truck {
                            s.truck
                        } else {
                            left
                        },
                    ),
                )
            }
        },
        ReadStage::Finished => (s, ActionView::Continue),
    }
}

impl RequestReader {
    pub closed spec fn wf(&self) -> bool {
        &&& self.reader.wf()
        &&& self.reader.separator() == crlf()
    }

    /// The whole state of reading.
    pub closed spec fn state(&self) -> ReaderState {
        ReaderState {
            stage: self.stage,
            buf: self.reader.buffered(),
            pos: self.reader.position(),
            starved: self.reader.starved(),
            truck: self.reader.truck(),
            req: self.req@,
            first_line: self.first_line@,
        }
    }

    /// Starts reading a request: nothing buffered, lines end with `\r\n`.
    pub fn new() -> (r: RequestReader)
        ensures
            r.wf(),
            r.state() == (ReaderState {
                stage: ReadStage::RequestLine,
                buf: Seq::empty(),
                pos: 0,
                starved: false,
                truck: TRUCK_BUF_LEN as int,
                req: empty_request(),
                first_line: Seq::empty(),
            }),
    {
        let mut reader = BufferReader::new();
        reader.set_line_sep("\r\n");
        proof {
            reveal_strlit("\r\n");
            assert(vstd::utf8::encode_utf8("\r\n"@) =~= crlf()) by {
                vstd::utf8::is_ascii_chars_encode_utf8("\r\n"@);
            }
        }
        RequestReader { reader, req: Request::empty(), first_line: String::new(), stage: ReadStage::RequestLine }
    }

    /// Hands over the bytes that a read returned.
    pub fn feed(&mut self, data: &[u8])
        requires
            old(self).wf(),
        ensures
            final(self).wf(),
            final(self).state() == (ReaderState {
                buf: old(self).state().buf + data@,
                starved: data@.len() == 0,
                ..old(self).state()
            }),
    {
        self.reader.feed(data);
    }

    /// Takes one step of reading the request, as `step_spec` says.
    pub fn step(&mut self) -> (a: ReadAction)
        requires
            old(self).wf(),
            old(self).state().stage != ReadStage::Finished,
        ensures
            final(self).wf(),
            (final(self).state(), action_view(a)) == step_spec(old(self).state()),
    {
        match self.stage {
            ReadStage::RequestLine => {
                match self.reader.read_line() {
                    LineStep::Read(n) => ReadAction::Read(n),
                    LineStep::Line(Err(e)) => {
                        self.stage = ReadStage::Finished;
                        ReadAction::Done(Err(e))
                    },
                    LineStep::Line(Ok(line)) => {
                        self.first_line = line;
                        self.stage = ReadStage::RequestLineRead;
                        ReadAction::ArmTimeout
                    },
                }
            },
            ReadStage::RequestLineRead => {
                match parse_request_line(self.first_line.as_str()) {
                    Ok((m, u, v)) => {
                        self.req.set_request_line(m, u, v);
                        self.stage = ReadStage::Headers;
                        ReadAction::Continue
                    },
                    Err(e) => {
                        self.stage = ReadStage::Finished;
                        ReadAction::Done(Err(e))
                    },
                }
            },
            ReadStage::Headers => {
                match self.reader.read_line() {
                    LineStep::Read(n) => ReadAction::Read(n),
                    LineStep::Line(Err(e)) => {
                        self.stage = ReadStage::Finished;
                        ReadAction::Done(Err(e))
                    },
                    LineStep::Line(Ok(line)) => {
                        if line.as_str().is_empty() {
                            self.stage = ReadStage::Body;
                            ReadAction::Continue
                        } else {
                            let (k, v) = split_header(line.as_str());
                            match handle_special_header(&mut self.req, k.as_str(), v.as_str()) {
                                Err(e) => {
                                    self.stage = ReadStage::Finished;
                                    ReadAction::Done(Err(e))
                                },
                                Ok(()) => {
                                    self.req.add_header(k, v);
                                    ReadAction::Continue
                                },
                            }
                        }
                    },
                }
            },
            ReadStage::Body => {
                let len = self.req.content_len();
                match self.reader.read_size(len) {
                    SizeStep::Read(n) => ReadAction::Read(n),
                    SizeStep::Bytes(body) => {
                        self.req.set_body(body);
                        let mut out = Request::empty();
                        std::mem::swap(&mut out, &mut self.req);
                        self.stage = ReadStage::Finished;
                        ReadAction::Done(Ok(out))
                    },
                }
            },
            ReadStage::Finished => ReadAction::Continue,
        }
    }
}

/// No byte is a carriage return.
pub open spec fn cr_free(b: Seq<u8>) -> bool {
    forall|j: int| 0 <= j < b.len() ==> b[j] != 13u8
}

/// A header line's text: `name:value`.
pub open spec fn header_text(h: (Seq<char>, Seq<char>)) -> Seq<char> {
    h.0 + seq![':'] + h.1
}

/// Header lines in UTF-8, each ended by `\r\n`.
pub open spec fn header_lines(hs: Seq<(Seq<char>, Seq<char>)>) -> Seq<u8>
    decreases hs.len(),
{
    if hs.len() == 0 {
        Seq::empty()
    } else {
        encode_utf8(header_text(hs[0])) + crlf() + header_lines(hs.drop_first())
    }
}

/// A request line's text: `method target version`.
pub open spec fn request_line_text(m: Seq<char>, u: Seq<char>, v: Seq<char>) -> Seq<char> {
    m + seq![' '] + u + seq![' '] + v
}

/// A request as bytes: the request line, the header lines, an empty line, the body.
pub open spec fn request_bytes(
    m: Seq<char>,
    u: Seq<char>,
    v: Seq<char>,
    hs: Seq<(Seq<char>, Seq<char>)>,
    body: Seq<u8>,
) -> Seq<u8> {
    encode_utf8(request_line_text(m, u, v)) + crlf() + header_lines(hs) + crlf() + body
}

/// The request after its header fields, given by name and value, are read in
/// order, or the error of the first one whose special effect fails.
pub open spec fn apply_headers(req: RequestView, hs: Seq<(Seq<char>, Seq<char>)>) -> Result<RequestView, IntErrorKind>
    decreases hs.len(),
{
    if hs.len() == 0 {
        Ok(req)
    } else {
        let k = trim(hs[0].0);
        let v = trim(hs[0].1);
        match special_header_effect(req.content_len, req.keep_alive, k, v) {
            Ok((n, ka)) => apply_headers(
                RequestView { content_len: n, keep_alive: ka, headers: insert_spec(req.headers, k, v), ..req },
                hs.drop_first(),
            ),
            Err(e) => Err(e),
        }
    }
}

/// Header fields whose names hold no `:` and whose lines hold no carriage return.
pub open spec fn plain_headers(hs: Seq<(Seq<char>, Seq<char>)>) -> bool {
    forall|i: int|
        0 <= i < hs.len() ==> {
            &&& (forall|j: int| 0 <= j < (#[trigger] hs[i]).0.len() ==> hs[i].0[j] != ':')
            &&& cr_free(encode_utf8(header_text(hs[i])))
        }
}

/// Up to `n` steps of reading, stopping at the first one that needs a read or
/// ends reading.
pub open spec fn run_spec(s: ReaderState, n: nat) -> (ReaderState, ActionView)
    decreases n,
{
    if n == 0 {
        (s, ActionView::Continue)
    } else {
        let (s2, a) = step_spec(s);
        match a {
            ActionView::Continue => run_spec(s2, (n - 1) as nat),
            ActionView::ArmTimeout => run_spec(s2, (n - 1) as nat),
            _ => (s2, a),
        }
    }
}

/// The state of reading when the bytes `buf` have been received and nothing is read yet.
pub open spec fn start_state(buf: Seq<u8>, truck: int) -> ReaderState {
    ReaderState {
        stage: ReadStage::RequestLine,
        buf,
        pos: 0,
        starved: false,
        truck,
        req: empty_request(),
        first_line: Seq::empty(),
    }
}

proof fn lemma_headers_read(s: ReaderState, prefix: Seq<u8>, hs: Seq<(Seq<char>, Seq<char>)>, body: Seq<u8>)
    requires
        s.stage == ReadStage::Headers,
        s.buf == prefix + header_lines(hs) + crlf() + body,
        s.pos == prefix.len(),
        !s.starved,
        plain_headers(hs),
        apply_headers(s.req, hs) is Ok,
        apply_headers(s.req, hs)->Ok_0.content_len <= body.len(),
    ensures
        run_spec(s, hs.len() + 2).1 == ActionView::Done(
            Ok(RequestView {
                body: body.subrange(0, apply_headers(s.req, hs)->Ok_0.content_len as int),
                ..apply_headers(s.req, hs)->Ok_0
            }),
        ),
    decreases hs.len(),
{
    let r = apply_headers(s.req, hs)->Ok_0;
    if hs.len() == 0 {
        assert(header_lines(hs) =~= Seq::<u8>::empty());
        let e = Seq::<char>::empty();
        assert(encode_utf8(e) =~= Seq::<u8>::empty());
        law_text_line_read_back(prefix, e, crlf(), body, s.starved, s.truck);
        assert(prefix + encode_utf8(e) + crlf() + body =~= s.buf);
        let (s2, a) = step_spec(s);
        assert(s2.stage == ReadStage::Body && a == ActionView::Continue);
        assert(s2.pos == prefix.len() + 2);
        assert(s2.buf.subrange(s2.pos, s2.pos + r.content_len) =~= body.subrange(0, r.content_len as int));
        assert(run_spec(s2, 1).1 == step_spec(s2).1);
    } else {
        let h = hs[0];
        let t = header_text(h);
        let rest = hs.drop_first();
        assert(plain_headers(rest)) by {
            assert forall|i: int| 0 <= i < rest.len() implies {
                &&& (forall|j: int| 0 <= j < (#[trigger] rest[i]).0.len() ==> rest[i].0[j] != ':')
                &&& cr_free(encode_utf8(header_text(rest[i])))
            } by {
                assert(rest[i] == hs[i + 1]);
            }
        }
        assert(forall|j: int| 0 <= j < hs[0].0.len() ==> hs[0].0[j] != ':');
        assert(cr_free(encode_utf8(header_text(hs[0]))));
        let after = header_lines(rest) + crlf() + body;
        assert(header_lines(hs) == encode_utf8(t) + crlf() + header_lines(rest));
        assert(s.buf =~= prefix + encode_utf8(t) + crlf() + after);
        law_text_line_read_back(prefix, t, crlf(), after, s.starved, s.truck);
        law_header_parts(h.0, h.1);
        assert(t.len() > 0) by {
            assert(t[h.0.len() as int] == ':');
        }
        let (s2, a) = step_spec(s);
        assert(a == ActionView::Continue);
        let prefix2 = prefix + encode_utf8(t) + crlf();
        assert(s2.buf =~= prefix2 + header_lines(rest) + crlf() + body);
        assert(s2.pos == prefix2.len());
        assert(apply_headers(s2.req, rest) == apply_headers(s.req, hs));
        lemma_headers_read(s2, prefix2, rest, body);
        assert(run_spec(s, hs.len() + 2) == run_spec(s2, rest.len() + 2));
    }
}

/// A request written as a request line of three space-free parts, header
/// lines `name:value` (names free of `:`, no carriage return anywhere), an
/// empty line and a body at least as long as the announced length, reads back
/// (once all of it is received) as that method, target and version, the header
/// fields applied in order, and the announced number of body bytes.
pub proof fn law_request_read_back(
    m: Seq<char>,
    u: Seq<char>,
    v: Seq<char>,
    hs: Seq<(Seq<char>, Seq<char>)>,
    body: Seq<u8>,
    truck: int,
)
    requires
        forall|j: int| 0 <= j < m.len() ==> m[j] != ' ',
        forall|j: int| 0 <= j < u.len() ==> u[j] != ' ',
        forall|j: int| 0 <= j < v.len() ==> v[j] != ' ',
        cr_free(encode_utf8(request_line_text(m, u, v))),
        plain_headers(hs),
        apply_headers(RequestView { method: m, uri: u, version: v, ..empty_request() }, hs) is Ok,
        apply_headers(RequestView { method: m, uri: u, version: v, ..empty_request() }, hs)->Ok_0.content_len
            <= body.len(),
    ensures
        ({
            let r = apply_headers(RequestView { method: m, uri: u, version: v, ..empty_request() }, hs)->Ok_0;
            run_spec(start_state(request_bytes(m, u, v, hs, body), truck), hs.len() + 4).1
                == ActionView::Done(Ok(RequestView { body: body.subrange(0, r.content_len as int), ..r }))
        }),
{
    let line = request_line_text(m, u, v);
    let bytes = request_bytes(m, u, v, hs, body);
    let s0 = start_state(bytes, truck);
    let e = Seq::<u8>::empty();
    let after = header_lines(hs) + crlf() + body;
    assert(bytes =~= e + encode_utf8(line) + crlf() + after);
    law_text_line_read_back(e, line, crlf(), after, false, truck);
    let (s1, a1) = step_spec(s0);
    assert(a1 == ActionView::ArmTimeout);
    assert(s1.first_line == line);
    law_request_line_parts(m, u, v);
    let (s2, a2) = step_spec(s1);
    assert(a2 == ActionView::Continue);
    let prefix = encode_utf8(line) + crlf();
    assert(s2.buf =~= prefix + header_lines(hs) + crlf() + body);
    lemma_headers_read(s2, prefix, hs, body);
    assert(run_spec(s0, hs.len() + 4) == run_spec(s1, hs.len() + 3));
    assert(run_spec(s1, hs.len() + 3) == run_spec(s2, hs.len() + 2));
}

} // verus!
