//! Answering a request: defaults for status codes, error bodies, and the
//! bytes that are written back.

use vstd::prelude::*;
use vstd::utf8::encode_utf8;
use crate::http::error::{HttpError, error_text};
use crate::http::headers::HeaderSeq;
use crate::http::request::{Request, Response, ResponseView, current_response};
use crate::text::{decimal, usize_to_string, utf8_bytes};

verus! {

/// The reason phrase of a status code, `Unknown Status` for codes without one.
pub open spec fn status_reason(code: i32) -> Seq<char> {
    match code {
        100 => "Continue"@,
        101 => "Switching Protocols"@,
        200 => "OK"@,
        201 => "Created"@,
        202 => "Accepted"@,
        203 => "Non-Authoritative Information"@,
        204 => "No Content"@,
        205 => "Reset Content"@,
        206 => "Partial Content"@,
        300 => "Multiple Choices"@,
        301 => "Moved Permanently"@,
        302 => "Found"@,
        303 => "See Other"@,
        304 => "Not Modified"@,
        305 => "Use Proxy"@,
        307 => "Temporary Redirect"@,
        308 => "Permanent Redirect"@,
        400 => "Bad Request"@,
        401 => "Unauthorized"@,
        402 => "Payment Required"@,
        403 => "Forbidden"@,
        404 => "Not Found"@,
        405 => "Method Not Allowed"@,
        406 => "Not Acceptable"@,
        407 => "Proxy Authentication Required"@,
        408 => "Request Timeout"@,
        409 => "Conflict"@,
        410 => "Gone"@,
        411 => "Length Required"@,
        412 => "Precondition Failed"@,
        413 => "Payload Too Large"@,
        414 => "URI Too Long"@,
        415 => "Unsupported Media Type"@,
        416 => "Range Not Satisfiable"@,
        417 => "Expectation Failed"@,
        426 => "Upgrade Required"@,
        500 => "Internal Server Error"@,
        501 => "Not Implemented"@,
        502 => "Bad Gateway"@,
        503 => "Service Unavailable"@,
        504 => "Gateway Timeout"@,
        505 => "HTTP Version Not Supported"@,
        _ => "Unknown Status"@,
    }
}

/// The reason phrase of a status code.
pub fn status_text(code: i32) -> (r: &'static str)
    ensures
        r@ == status_reason(code),
{
    match code {
        100 => "Continue",
        101 => "Switching Protocols",
        200 => "OK",
        201 => "Created",
        202 => "Accepted",
        203 => "Non-Authoritative Information",
        204 => "No Content",
        205 => "Reset Content",
        206 => "Partial Content",
        300 => "Multiple Choices",
        301 => "Moved Permanently",
        302 => "Found",
        303 => "See Other",
        304 => "Not Modified",
        305 => "Use Proxy",
        307 => "Temporary Redirect",
        308 => "Permanent Redirect",
        400 => "Bad Request",
        401 => "Unauthorized",
        402 => "Payment Required",
        403 => "Forbidden",
        404 => "Not Found",
        405 => "Method Not Allowed",
        406 => "Not Acceptable",
        407 => "Proxy Authentication Required",
        408 => "Request Timeout",
        409 => "Conflict",
        410 => "Gone",
        411 => "Length Required",
        412 => "Precondition Failed",
        413 => "Payload Too Large",
        414 => "URI Too Long",
        415 => "Unsupported Media Type",
        416 => "Range Not Satisfiable",
        417 => "Expectation Failed",
        426 => "Upgrade Required",
        500 => "Internal Server Error",
        501 => "Not Implemented",
        502 => "Bad Gateway",
        503 => "Service Unavailable",
        504 => "Gateway Timeout",
        505 => "HTTP Version Not Supported",
        _ => "Unknown Status",
    }
}

/// The decimal text of a signed number.
pub open spec fn int_decimal(n: int) -> Seq<char> {
    if n < 0 {
        seq!['-'] + decimal((-n) as nat)
    } else {
        decimal(n as nat)
    }
}

/// The decimal text of `n` (`i32::to_string`).
pub fn i32_to_string(n: i32) -> (r: String)
    ensures
        r@ == int_decimal(n as int),
{
    if n < 0 {
        let m: i64 = -(n as i64);
        let mut s = String::from_str("-");
        let digits = usize_to_string(m as usize);
        s.append(digits.as_str());
        proof {
            reveal_strlit("-");
        }
        s
    } else {
        usize_to_string(n as usize)
    }
}

/// One header line: `name:value`.
pub open spec fn header_line(e: (Seq<char>, Seq<char>)) -> Seq<char> {
    e.0 + ":"@ + e.1
}

/// The header lines joined by `\r\n`.
pub open spec fn header_block(hs: HeaderSeq) -> Seq<char>
    decreases hs.len(),
{
    if hs.len() == 0 {
        Seq::empty()
    } else if hs.len() == 1 {
        header_line(hs[0])
    } else {
        header_block(hs.drop_last()) + "\r\n"@ + header_line(hs.last())
    }
}

/// The head of a response: `version code reason`, then `\r\n` and the header
/// block if there are fields, then `\r\n\r\n`.
pub open spec fn response_head(r: ResponseView) -> Seq<char> {
    let status = r.version + " "@ + int_decimal(r.status_code as int) + " "@ + status_reason(
        r.status_code,
    );
    let fields = if r.headers.len() > 0 {
        "\r\n"@ + header_block(r.headers)
    } else {
        Seq::empty()
    };
    status + fields + "\r\n\r\n"@
}

/// The bytes written for a response: its head in UTF-8, then its body.
pub open spec fn response_bytes(r: ResponseView) -> Seq<u8> {
    encode_utf8(response_head(r)) + r.body
}

/// The bytes to write for `resp`.
pub fn serialize_response(resp: &Response) -> (r: Vec<u8>)
    ensures
        r@ == response_bytes(resp@),
{
    let mut head = String::new();
    head.append(resp.version.as_str());
    head.append(" ");
    let code = i32_to_string(resp.status_code);
    head.append(code.as_str());
    head.append(" ");
    head.append(status_text(resp.status_code));
    let ghost status = head@;
    proof {
        reveal_strlit(" ");
        assert(status =~= resp.version@ + " "@ + int_decimal(resp.status_code as int) + " "@
            + status_reason(resp.status_code));
    }
    let n = resp.headers.len();
    if n > 0 {
        head.append("\r\n");
        let ghost before = head@;
        let mut i: usize = 0;
        while i < n
            invariant
                n == resp.headers@.len(),
                n > 0,
                i <= n,
                head@ == before + header_block(resp.headers@.subrange(0, i as int)),
            decreases n - i,
        {
            let ghost old_head = head@;
            let ghost hs = resp.headers@.subrange(0, i + 1);
            assert(hs.drop_last() =~= resp.headers@.subrange(0, i as int));
            assert(hs.last() == resp.headers@[i as int]);
            let (k, v) = resp.headers.entry(i);
            if i > 0 {
                head.append("\r\n");
            }
            head.append(k.as_str());
            head.append(":");
            head.append(v.as_str());
            proof {
                reveal_strlit(":");
                reveal_strlit("\r\n");
                if i == 0 {
                    assert(hs.len() == 1);
                    assert(header_block(resp.headers@.subrange(0, 0)) =~= Seq::<char>::empty());
                    assert(head@ =~= before + header_block(hs));
                } else {
                    assert(head@ =~= before + header_block(hs));
                }
            }
            i = i + 1;
        }
        assert(resp.headers@.subrange(0, n as int) =~= resp.headers@);
        proof {
            assert(head@ =~= status + ("\r\n"@ + header_block(resp.headers@)));
        }
    } else {
        assert(head@ =~= status + Seq::<char>::empty());
    }
    let ghost fields = head@;
    head.append("\r\n\r\n");
    assert(head@ =~= response_head(resp@));
    let mut bytes = utf8_bytes(head.as_str());
    let mut i: usize = 0;
    let ghost start = bytes@;
    while i < resp.body.len()
        invariant
            i <= resp.body@.len(),
            bytes@ == start + resp.body@.subrange(0, i as int),
        decreases resp.body@.len() - i,
    {
        bytes.push(resp.body[i]);
        assert(resp.body@.subrange(0, i + 1) =~= resp.body@.subrange(0, i as int).push(resp.body@[i as int]));
        i = i + 1;
    }
    assert(resp.body@.subrange(0, resp.body@.len() as int) =~= resp.body@);
    bytes
}

/// The body shown for an error: `Server Error: ` and the error's text, in UTF-8.
pub open spec fn error_body(e: HttpError) -> Seq<u8> {
    encode_utf8("Server Error: "@ + error_text(e))
}

/// The response after an error: status 502 unless one is set, and the error's
/// text as body unless there is one.
pub open spec fn error_response_spec(r: ResponseView, e: HttpError) -> ResponseView {
    ResponseView {
        status_code: if r.status_code == 0 {
            502
        } else {
            r.status_code
        },
        body: if r.body.len() == 0 {
            error_body(e)
        } else {
            r.body
        },
        ..r
    }
}

/// After an error, a response without a status gets 502 whatever its body
/// holds, and a set status stays; an empty body becomes the error's text and
/// any other body stays; nothing else changes.
pub proof fn law_error_status(r: ResponseView, e: HttpError)
    ensures
        r.status_code == 0 ==> error_response_spec(r, e).status_code == 502,
        r.status_code != 0 ==> error_response_spec(r, e).status_code == r.status_code,
        r.body.len() != 0 ==> error_response_spec(r, e).body == r.body,
        r.body.len() == 0 ==> error_response_spec(r, e).body == error_body(e),
        error_response_spec(r, e).headers == r.headers,
        error_response_spec(r, e).version == r.version,
        forall|b: Seq<u8>| #[trigger] error_response_spec(ResponseView { body: b, ..r }, e).status_code
            == error_response_spec(r, e).status_code,
{
}

/// Turns `resp` into the answer to error `err`.
pub fn error_response(resp: &mut Response, err: &HttpError)
    ensures
        final(resp)@ == error_response_spec(old(resp)@, *err),
{
    if resp.status_code == 0 {
        resp.status_code = 502;
    }
    if resp.body.len() == 0 {
        let mut info = String::from_str("Server Error: ");
        let m = err.message();
        info.append(m.as_str());
        resp.body = utf8_bytes(info.as_str());
    }
}

/// Turns the response of `req` into the answer to error `err`.
pub fn error_response_for_request(req: &mut Request, err: &HttpError)
    ensures
        final(req)@ == (crate::http::request::RequestView {
            response: Some(error_response_spec(current_response(old(req)@.response), *err)),
            ..old(req)@
        }),
{
    let resp = req.borrow_response_mut();
    error_response(resp, err);
}

} // verus!
