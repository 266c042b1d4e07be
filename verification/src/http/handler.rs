//! Request handlers and the response rules applied around them.

use vstd::prelude::*;
use crate::http::error::HttpError;
use crate::http::headers::{insert_spec, lookup};
use crate::http::request::{Request, RequestView, Response, ResponseView, current_response};
use crate::http::response::{error_response, error_response_for_request, error_response_spec};
use crate::text::{decimal, usize_to_string, parse_usize_spec, IntErrorKind};

verus! {

/// Answers requests: fills in the response attached to a request.
pub trait Handler: Copy + Send {
    /// What a call of `handle` may do: turn the request `before` into `after`
    /// and end with `out`. A handler that says nothing of itself allows
    /// anything; `BaseHandler` states its own in terms of the handler it wraps.
    open spec fn handled(&self, before: RequestView, after: RequestView, out: Result<(), HttpError>) -> bool {
        true
    }

    fn handle(&self, req: &mut Request) -> (r: Result<(), HttpError>)
        ensures
            self.handled(old(req)@, final(req)@, r),
    ;
}

/// The response after a handler succeeded: its version is the request's, and a
/// non-empty body gets a `Content-Length` field holding its length.
pub open spec fn completed_response(req: RequestView) -> ResponseView {
    let r = current_response(req.response);
    ResponseView {
        headers: if r.body.len() != 0 {
            insert_spec(r.headers, "Content-Length"@, decimal(r.body.len()))
        } else {
            r.headers
        },
        version: req.version,
        ..r
    }
}

/// Applies the rules of `completed_response` to the request's response.
pub fn complete_response(req: &mut Request)
    ensures
        final(req)@ == (RequestView { response: Some(completed_response(old(req)@)), ..old(req)@ }),
        crate::http::headers::distinct_names(current_response(old(req)@.response).headers),
{
    proof {
        req.lemma_fields();
    }
    let version = req.version.clone();
    let r = req.borrow_response_mut();
    proof {
        use_type_invariant(&r.headers);
    }
    let len = r.body.len();
    if len != 0 {
        r.headers.insert(String::from_str("Content-Length"), usize_to_string(len));
    }
    r.version = version;
}

/// A completed response with a body carries a `Content-Length` field that reads
/// back, as a decimal number, as the length of its body.
pub proof fn law_content_length_reads_back(req: RequestView)
    requires
        crate::http::headers::distinct_names(current_response(req.response).headers),
        current_response(req.response).body.len() != 0,
        current_response(req.response).body.len() <= usize::MAX,
    ensures
        ({
            let resp = completed_response(req);
            &&& lookup(resp.headers, "Content-Length"@) matches Some(v)
            &&& parse_usize_spec(v) == Ok::<int, IntErrorKind>(resp.body.len() as int)
        }),
{
    let r = current_response(req.response);
    crate::http::headers::law_lookup_after_insert(r.headers, "Content-Length"@, decimal(r.body.len()));
    crate::text::law_decimal_round_trip(r.body.len() as usize);
}

/// A handler wrapped so that the response rules apply after it.
#[derive(Clone, Copy)]
pub struct BaseHandler<T: Handler> {
    pub handler: T,
}

/// What `BaseHandler` does once the wrapped handler has ended with `outcome`:
/// on success the response is completed (`completed_response`) and `Ok` is
/// returned; on failure the request stays as the handler left it and the same
/// error is returned.
pub fn finish_handle(req: &mut Request, outcome: Result<(), HttpError>) -> (r: Result<(), HttpError>)
    ensures
        r == outcome,
        outcome is Ok ==> final(req)@ == (RequestView { response: Some(completed_response(old(req)@)), ..old(req)@ }),
        outcome is Err ==> final(req)@ == old(req)@,
        outcome is Ok ==> crate::http::headers::distinct_names(current_response(old(req)@.response).headers),
{
    if outcome.is_ok() {
        complete_response(req);
    }
    outcome
}

impl<T: Handler> Handler for BaseHandler<T> {
    /// The wrapped handler turns `before` into some request and ends with
    /// `out`; the same outcome is passed on, and on success the response is
    /// completed (`completed_response`), on failure the request stays as the
    /// wrapped handler left it.
    open spec fn handled(&self, before: RequestView, after: RequestView, out: Result<(), HttpError>) -> bool {
        exists|mid: RequestView|
            #![trigger self.handler.handled(before, mid, out)]
            self.handler.handled(before, mid, out) && after == (if out is Ok {
                RequestView { response: Some(completed_response(mid)), ..mid }
            } else {
                mid
            })
    }

    /// Runs the wrapped handler; when it succeeds, completes the response.
    /// Whether it succeeds is the wrapped handler's decision, which
    /// `finish_handle` passes on unchanged.
    fn handle(&self, req: &mut Request) -> (r: Result<(), HttpError>)
        ensures
            self.handled(old(req)@, final(req)@, r),
            r is Ok ==> (final(req)@.response matches Some(resp) && resp.version == final(req)@.version
                && (resp.body.len() != 0 ==> lookup(resp.headers, "Content-Length"@) == Some(
                decimal(resp.body.len())))),
    {
        let ghost before = req@;
        let outcome = self.handler.handle(req);
        let ghost mid = req@;
        let ghost o = outcome;
        let r = finish_handle(req, outcome);
        assert(self.handler.handled(before, mid, o));
        proof {
            let resp = current_response(mid.response);
            if r is Ok && resp.body.len() != 0 {
                crate::http::headers::law_lookup_after_insert(resp.headers, "Content-Length"@, decimal(resp.body.len()));
            }
        }
        r
    }
}

/// The response for a request, given how its handler ended: on error, the
/// error's answer; on success, status 200 unless one was set.
pub open spec fn concluded_response(req: RequestView, outcome: Result<(), HttpError>) -> ResponseView {
    let r = current_response(req.response);
    match outcome {
        Err(e) => error_response_spec(r, e),
        Ok(_) => ResponseView {
            status_code: if r.status_code == 0 {
                200
            } else {
                r.status_code
            },
            ..r
        },
    }
}

/// A handler that fails leaves an answer with status 502 when it set none,
/// whatever body it wrote, and keeps that body; a handler that succeeds
/// without a status answers 200.
pub proof fn law_failed_handler_answers_502(h: RequestView, e: HttpError)
    ensures
        current_response(h.response).status_code == 0 ==> concluded_response(h, Err(e)).status_code == 502,
        current_response(h.response).body.len() != 0 ==> concluded_response(h, Err(e)).body
            == current_response(h.response).body,
        current_response(h.response).status_code == 0 ==> concluded_response(h, Ok(())).status_code == 200,
{
}

/// The response to send once the handler of `req` has ended with `outcome`.
pub fn conclude_request(req: Request, outcome: Result<(), HttpError>) -> (r: Response)
    ensures
        r@ == concluded_response(req@, outcome),
{
    let mut req = req;
    match outcome {
        Err(err) => {
            error_response_for_request(&mut req, &err);
        },
        Ok(()) => {
            let r = req.borrow_response_mut();
            if r.status_code == 0 {
                r.status_code = 200;
            }
        },
    }
    req.move_response()
}

/// The response to a read request, or to the error met while reading it. A
/// read request goes to `handler` as it was read; the answer is the concluded
/// response (`concluded_response`) of the request as the handler left it, for
/// the handler's outcome.
pub fn handle_request<T: Handler>(req: Result<Request, HttpError>, handler: T) -> (r: Response)
    ensures
        req matches Err(e) ==> r@ == error_response_spec(
            crate::http::request::fresh_response(),
            e,
        ),
        req matches Ok(q) ==> exists|h: RequestView, o: Result<(), HttpError>|
            #![trigger handler.handled(q@, h, o)]
            handler.handled(q@, h, o) && r@ == concluded_response(h, o),
{
    match req {
        Ok(mut req) => {
            let ghost read = req@;
            let outcome = handler.handle(&mut req);
            let ghost handled = req@;
            let ghost o = outcome;
            let r = conclude_request(req, outcome);
            assert(handler.handled(read, handled, o) && r@ == concluded_response(handled, o));
            r
        },
        Err(err) => {
            let mut resp = Response::new();
            error_response(&mut resp, &err);
            resp
        },
    }
}

/// Whether the connection stays open after answering: only for a request that
/// asked for keep-alive.
pub fn keeps_alive(req: &Result<Request, HttpError>) -> (r: bool)
    ensures
        r == (req matches Ok(q) && q@.keep_alive),
{
    match req {
        Ok(q) => {
            proof {
                q.lemma_fields();
            }
            q.keep_alive
        },
        Err(_) => false,
    }
}

} // verus!
