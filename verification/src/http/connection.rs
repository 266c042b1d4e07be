//! The order of steps in serving one connection: read a request, answer it,
//! then read the next one or close. The caller reads and writes; these
//! functions say what comes next.

use vstd::prelude::*;
use crate::http::error::HttpError;
use crate::http::handler::keeps_alive;
use crate::http::request::Request;

verus! {

/// Where serving a connection stands.
#[derive(Clone, Copy, Debug, PartialEq, Eq, Structural)]
pub enum Serving {
    /// Waiting for the next request.
    Reading,
    /// Sending the answer; `keep_alive` says whether the request asked to keep
    /// the connection open.
    Writing { keep_alive: bool },
    /// Done: the connection is closed.
    Closed,
}

/// What happened since the last step.
#[derive(Clone, Copy, Debug, PartialEq, Eq, Structural)]
pub enum ServeEvent {
    /// A request was read, or reading it failed; `ends_connection` says
    /// whether the failure means that the peer has gone.
    Read { ends_connection: bool, keep_alive: bool },
    /// The answer was written, or writing it failed.
    Written { ok: bool },
}

/// What the caller does next.
#[derive(Clone, Copy, Debug, PartialEq, Eq, Structural)]
pub enum ServeAction {
    ReadRequest,
    Answer,
    Close,
}

/// One step of serving: a read that found the peer gone closes; any other
/// read is answered; a failed write closes; a written answer is followed by
/// the next request only if the request asked for keep-alive. An event that
/// does not fit the state closes.
pub open spec fn serve_step_spec(st: Serving, ev: ServeEvent) -> (Serving, ServeAction) {
    match (st, ev) {
        (Serving::Reading, ServeEvent::Read { ends_connection, keep_alive }) => if ends_connection {
            (Serving::Closed, ServeAction::Close)
        } else {
            (Serving::Writing { keep_alive }, ServeAction::Answer)
        },
        (Serving::Writing { keep_alive }, ServeEvent::Written { ok }) => if ok && keep_alive {
            (Serving::Reading, ServeAction::ReadRequest)
        } else {
            (Serving::Closed, ServeAction::Close)
        },
        _ => (Serving::Closed, ServeAction::Close),
    }
}

/// Every request read without the peer gone is answered, whether or not it
/// asked for keep-alive; only a read that found the peer gone closes without
/// an answer. After a written answer the next request is read exactly when
/// the answered request asked for keep-alive and the write succeeded; so a
/// request without keep-alive is answered once, then the connection closes.
pub proof fn law_every_request_is_answered(keep_alive: bool, ok: bool)
    ensures
        serve_step_spec(Serving::Reading, ServeEvent::Read { ends_connection: false, keep_alive }).1
            == ServeAction::Answer,
        serve_step_spec(Serving::Reading, ServeEvent::Read { ends_connection: true, keep_alive }).1
            == ServeAction::Close,
        ({
            let (answering, _) = serve_step_spec(Serving::Reading, ServeEvent::Read { ends_connection: false, keep_alive });
            serve_step_spec(answering, ServeEvent::Written { ok }) == (if ok && keep_alive {
                (Serving::Reading, ServeAction::ReadRequest)
            } else {
                (Serving::Closed, ServeAction::Close)
            })
        }),
{
}

/// Serving starts by reading a request.
pub fn serve_start() -> (r: (Serving, ServeAction))
    ensures
        r == (Serving::Reading, ServeAction::ReadRequest),
{
    (Serving::Reading, ServeAction::ReadRequest)
}

/// The event of having read `req`: whether its error ends the connection, and
/// whether it asked for keep-alive.
pub fn read_event(req: &Result<Request, HttpError>) -> (r: ServeEvent)
    ensures
        r == (ServeEvent::Read {
            ends_connection: req matches Err(e) && (e is Eof || (e matches HttpError::Io { unexpected_eof, .. } && unexpected_eof == true)),
            keep_alive: req matches Ok(q) && q@.keep_alive,
        }),
{
    let ends = match req {
        Err(e) => e.ends_connection(),
        Ok(_) => false,
    };
    ServeEvent::Read { ends_connection: ends, keep_alive: keeps_alive(req) }
}

/// The next state and action after `ev` in state `st`.
pub fn serve_step(st: Serving, ev: ServeEvent) -> (r: (Serving, ServeAction))
    ensures
        r == serve_step_spec(st, ev),
{
    match (st, ev) {
        (Serving::Reading, ServeEvent::Read { ends_connection, keep_alive }) => if ends_connection {
            (Serving::Closed, ServeAction::Close)
        } else {
            (Serving::Writing { keep_alive }, ServeAction::Answer)
        },
        (Serving::Writing { keep_alive }, ServeEvent::Written { ok }) => if ok && keep_alive {
            (Serving::Reading, ServeAction::ReadRequest)
        } else {
            (Serving::Closed, ServeAction::Close)
        },
        _ => (Serving::Closed, ServeAction::Close),
    }
}

} // verus!
