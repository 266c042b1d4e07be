//! Requests, the responses attached to them, and the header rules that a
//! request's reading applies.

use vstd::prelude::*;
use crate::http::error::HttpError;
use crate::http::headers::{Headers, HeaderSeq, insert_spec};
use crate::text::{IntErrorKind, lowercase, all_ascii, ascii_lowercase, parse_usize, parse_usize_spec, to_lowercase, chars_of};

verus! {

/// A response as text and numbers.
pub struct ResponseView {
    pub body: Seq<u8>,
    pub status_code: i32,
    pub headers: HeaderSeq,
    pub version: Seq<char>,
}

/// A response: body, status code, header fields and protocol version.
pub struct Response {
    pub body: Vec<u8>,
    pub status_code: i32,
    pub headers: Headers,
    pub version: String,
}

impl View for Response {
    type V = ResponseView;

    open spec fn view(&self) -> ResponseView {
        ResponseView {
            body: self.body@,
            status_code: self.status_code,
            headers: self.headers@,
            version: self.version@,
        }
    }
}

/// A response not yet filled in: no body, status 0, no fields, `HTTP/1.1`.
pub open spec fn fresh_response() -> ResponseView {
    ResponseView {
        body: Seq::empty(),
        status_code: 0,
        headers: Seq::empty(),
        version: "HTTP/1.1"@,
    }
}

impl Response {
    /// A fresh response.
    pub fn new() -> (r: Response)
        ensures
            r@ == fresh_response(),
    {
        let r = Response {
            body: Vec::new(),
            status_code: 0,
            headers: Headers::new(),
            version: String::from_str("HTTP/1.1"),
        };
        assert(r.body@ =~= Seq::<u8>::empty());
        r
    }
}

/// A request as text and numbers, with the view of the attached response.
pub struct RequestView {
    pub body: Seq<u8>,
    pub headers: HeaderSeq,
    pub version: Seq<char>,
    pub method: Seq<char>,
    pub uri: Seq<char>,
    pub keep_alive: bool,
    pub content_len: nat,
    pub response: Option<ResponseView>,
}

/// A request as read from a connection, with the response being prepared for it.
pub struct Request {
    pub body: Vec<u8>,
    pub headers: Headers,
    pub version: String,
    pub method: String,
    pub uri: String,
    pub keep_alive: bool,
    pub(crate) content_len: usize,
    pub(crate) response: Option<Response>,
}

/// The view of an optional response.
pub open spec fn opt_view(r: Option<Response>) -> Option<ResponseView> {
    match r {
        Some(x) => Some(x@),
        None => None,
    }
}

/// The response that a request answers with: the one attached, else a fresh one.
pub open spec fn current_response(r: Option<ResponseView>) -> ResponseView {
    match r {
        Some(x) => x,
        None => fresh_response(),
    }
}

/// A request with nothing read yet.
pub open spec fn empty_request() -> RequestView {
    RequestView {
        body: Seq::empty(),
        headers: Seq::empty(),
        version: Seq::empty(),
        method: Seq::empty(),
        uri: Seq::empty(),
        keep_alive: false,
        content_len: 0,
        response: None,
    }
}

impl View for Request {
    type V = RequestView;

    closed spec fn view(&self) -> RequestView {
        RequestView {
            body: self.body@,
            headers: self.headers@,
            version: self.version@,
            method: self.method@,
            uri: self.uri@,
            keep_alive: self.keep_alive,
            content_len: self.content_len as nat,
            response: opt_view(self.response),
        }
    }
}

impl Request {
    /// A request with nothing read yet.
    pub fn empty() -> (r: Request)
        ensures
            r@ == empty_request(),
    {
        let r = Request {
            body: Vec::new(),
            headers: Headers::new(),
            version: String::new(),
            method: String::new(),
            uri: String::new(),
            keep_alive: false,
            content_len: 0,
            response: None,
        };
        assert(r.body@ =~= Seq::<u8>::empty());
        r
    }

    /// The view of the public fields is their own view.
    pub(crate) proof fn lemma_fields(&self)
        ensures
            self@.body == self.body@,
            self@.headers == self.headers@,
            self@.version == self.version@,
            self@.method == self.method@,
            self@.uri == self.uri@,
            self@.keep_alive == self.keep_alive,
    {
    }

    pub(crate) fn set_request_line(&mut self, method: String, uri: String, version: String)
        ensures
            final(self)@ == (RequestView { method: method@, uri: uri@, version: version@, ..old(self)@ }),
    {
        self.method = method;
        self.uri = uri;
        self.version = version;
    }

    pub(crate) fn set_body(&mut self, body: Vec<u8>)
        ensures
            final(self)@ == (RequestView { body: body@, ..old(self)@ }),
    {
        self.body = body;
    }

    pub(crate) fn add_header(&mut self, k: String, v: String)
        ensures
            final(self)@ == (RequestView { headers: insert_spec(old(self)@.headers, k@, v@), ..old(self)@ }),
    {
        self.headers.insert(k, v);
    }

    /// The announced body length.
    pub fn content_len(&self) -> (r: usize)
        ensures
            r == self@.content_len,
    {
        self.content_len
    }

    /// Attaches `resp` (or none).
    pub fn set_response(&mut self, resp: Option<Response>)
        ensures
            final(self)@ == (RequestView { response: opt_view(resp), ..old(self)@ }),
    {
        self.response = resp;
    }

    fn init_response(&mut self)
        ensures
            final(self)@ == (RequestView {
                response: Some(current_response(old(self)@.response)),
                ..old(self)@
            }),
            final(self).response is Some,
    {
        if self.response.is_none() {
            self.response = Some(Response::new());
        }
    }

    /// Sets the response body (attaching a fresh response first if there is none).
    pub fn set_response_body(&mut self, body: &[u8])
        ensures
            final(self)@ == (RequestView {
                response: Some(ResponseView { body: body@, ..current_response(old(self)@.response) }),
                ..old(self)@
            }),
    {
        self.init_response();
        match &mut self.response {
            Some(r) => {
                r.body = vstd::slice::slice_to_vec(body);
            },
            None => {},
        }
    }

    /// Sets the response status code.
    pub fn set_status_code(&mut self, status: i32)
        ensures
            final(self)@ == (RequestView {
                response: Some(
                    ResponseView { status_code: status, ..current_response(old(self)@.response) },
                ),
                ..old(self)@
            }),
    {
        self.init_response();
        match &mut self.response {
            Some(r) => {
                r.status_code = status;
            },
            None => {},
        }
    }

    /// Replaces all response header fields.
    pub fn set_response_headers(&mut self, header: Headers)
        ensures
            final(self)@ == (RequestView {
                response: Some(
                    ResponseView { headers: header@, ..current_response(old(self)@.response) },
                ),
                ..old(self)@
            }),
    {
        self.init_response();
        match &mut self.response {
            Some(r) => {
                r.headers = header;
            },
            None => {},
        }
    }

    /// Gives response field `k` the value `v`.
    pub fn set_response_header(&mut self, k: &str, v: &str)
        ensures
            final(self)@ == (RequestView {
                response: Some(
                    ResponseView {
                        headers: insert_spec(current_response(old(self)@.response).headers, k@, v@),
                        ..current_response(old(self)@.response)
                    },
                ),
                ..old(self)@
            }),
    {
        self.init_response();
        match &mut self.response {
            Some(r) => {
                r.headers.insert(String::from_str(k), String::from_str(v));
            },
            None => {},
        }
    }

    /// The attached response, a fresh one being attached if there was none.
    pub fn borrow_response_mut(&mut self) -> (r: &mut Response)
        ensures
            (*r)@ == current_response(old(self)@.response),
            final(self)@ == (RequestView { response: Some((*final(r))@), ..old(self)@ }),
    {
        self.init_response();
        self.response.as_mut().unwrap()
    }

    /// The attached response.
    pub fn get_response(&self) -> (r: &Option<Response>)
        ensures
            opt_view(*r) == self@.response,
    {
        &self.response
    }

    /// The response to send: the attached one, else a fresh one.
    pub fn move_response(self) -> (r: Response)
        ensures
            r@ == current_response(self@.response),
    {
        let mut me = self;
        me.init_response();
        match me.response {
            Some(r) => r,
            None => Response::new(),
        }
    }
}

/// What a header field, its name and value already in lowercase, does to a
/// request beyond being stored: `content-length` sets the body length (its
/// value parsed as a decimal number), and `connection: keep-alive` keeps the
/// connection open.
pub open spec fn lowered_header_effect(
    content_len: nat,
    keep_alive: bool,
    kl: Seq<char>,
    vl: Seq<char>,
) -> Result<(nat, bool), IntErrorKind> {
    if kl == "content-length"@ {
        match parse_usize_spec(vl) {
            Ok(n) => Ok((n as nat, keep_alive)),
            Err(e) => Err(e),
        }
    } else if kl == "connection"@ && vl == "keep-alive"@ {
        Ok((content_len, true))
    } else {
        Ok((content_len, keep_alive))
    }
}

/// What a header field does to a request beyond being stored: the effect of
/// its name and value in lowercase, so `Content-Length` and
/// `Connection: Keep-Alive` count in any case.
pub open spec fn special_header_effect(
    content_len: nat,
    keep_alive: bool,
    k: Seq<char>,
    v: Seq<char>,
) -> Result<(nat, bool), IntErrorKind> {
    lowered_header_effect(content_len, keep_alive, lowercase(k), lowercase(v))
}

/// A `content-length` field changes only the announced body length: it sets
/// the length to its value read as a decimal number, fails exactly when that
/// value is not one, and leaves keep-alive as it was. `connection: keep-alive`
/// turns keep-alive on and leaves the length; so keep-alive asked for before a
/// `content-length` field survives it.
pub proof fn law_content_length_sets_only_length(content_len: nat, keep_alive: bool, v: Seq<char>)
    ensures
        lowered_header_effect(content_len, keep_alive, "content-length"@, v) matches Ok((n, ka))
            ==> ka == keep_alive && (parse_usize_spec(v) matches Ok(m) && n == m as nat),
        lowered_header_effect(content_len, keep_alive, "content-length"@, v) is Err <==> parse_usize_spec(v) is Err,
        lowered_header_effect(content_len, keep_alive, "connection"@, "keep-alive"@) == Ok::<(nat, bool), IntErrorKind>((content_len, true)),
        parse_usize_spec(v) matches Ok(n) ==> ({
            let first = lowered_header_effect(content_len, keep_alive, "connection"@, "keep-alive"@);
            first matches Ok((c1, k1)) && lowered_header_effect(c1, k1, "content-length"@, v) == Ok::<(nat, bool), IntErrorKind>((n as nat, true))
        }),
{
    reveal_strlit("content-length");
    reveal_strlit("connection");
    reveal_strlit("keep-alive");
    assert("content-length"@.len() != "connection"@.len());
}

/// The same for a field as received: a name whose lowercase is
/// `content-length` never changes keep-alive.
pub proof fn law_received_content_length_keeps_keep_alive(content_len: nat, keep_alive: bool, k: Seq<char>, v: Seq<char>)
    requires
        lowercase(k) == "content-length"@,
    ensures
        special_header_effect(content_len, keep_alive, k, v) matches Ok((n, ka)) ==> ka == keep_alive,
{
    law_content_length_sets_only_length(content_len, keep_alive, lowercase(v));
}

/// Applies the effect of header field `kl: vl`, given in lowercase, on the request.
pub fn apply_special_header(req: &mut Request, kl: &str, vl: &str) -> (r: Result<(), HttpError>)
    ensures
        match lowered_header_effect(old(req)@.content_len, old(req)@.keep_alive, kl@, vl@) {
            Ok((n, ka)) => r is Ok && final(req)@ == (RequestView {
                content_len: n,
                keep_alive: ka,
                ..old(req)@
            }),
            Err(e) => r == Err::<(), HttpError>(HttpError::InvalidContentLength(e))
                && final(req)@ == old(req)@,
        },
{
    let k = String::from_str(kl);
    let v = String::from_str(vl);
    if k == String::from_str("content-length") {
        let cs = chars_of(vl);
        assert(cs@.subrange(0, cs@.len() as int) =~= vl@);
        match parse_usize(cs.as_slice(), 0, cs.len()) {
            Ok(n) => {
                req.content_len = n;
            },
            Err(e) => {
                return Err(HttpError::InvalidContentLength(e));
            },
        }
    } else if k == String::from_str("connection") {
        if v == String::from_str("keep-alive") {
            req.keep_alive = true;
        }
    }
    Ok(())
}

/// Applies the effect of header field `k: v` on the request. A name and value
/// in ASCII count in any case: their effect is that of their ASCII lowercase.
pub fn handle_special_header(req: &mut Request, k: &str, v: &str) -> (r: Result<(), HttpError>)
    ensures
        match special_header_effect(old(req)@.content_len, old(req)@.keep_alive, k@, v@) {
            Ok((n, ka)) => r is Ok && final(req)@ == (RequestView {
                content_len: n,
                keep_alive: ka,
                ..old(req)@
            }),
            Err(e) => r == Err::<(), HttpError>(HttpError::InvalidContentLength(e))
                && final(req)@ == old(req)@,
        },
        all_ascii(k@) && all_ascii(v@) ==> special_header_effect(old(req)@.content_len, old(req)@.keep_alive, k@, v@)
            == lowered_header_effect(old(req)@.content_len, old(req)@.keep_alive, ascii_lowercase(k@), ascii_lowercase(v@)),
{
    let kl = to_lowercase(k);
    let vl = to_lowercase(v);
    apply_special_header(req, kl.as_str(), vl.as_str())
}

} // verus!
