use rust_demos::http::buf_reader::{BufferReader, LineStep, SizeStep};
use rust_demos::http::connection::{read_event, serve_start, serve_step, ServeAction, ServeEvent, Serving};
use rust_demos::http::error::HttpError;
use rust_demos::http::handler::{handle_request, keeps_alive, BaseHandler, Handler, conclude_request, finish_handle};
use rust_demos::http::headers::Headers;
use rust_demos::http::reading::{parse_request_line, split_header, ReadAction, RequestReader};
use rust_demos::http::request::{apply_special_header, handle_special_header, Request, Response};
use rust_demos::http::response::{error_response, serialize_response, status_text, i32_to_string};
use rust_demos::http::thread_pool::{take_return, Acquire, Pool, PoolError, Release, Signal};
use rust_demos::text::IntErrorKind;

/// Drives a request reader over `input`, each read returning at most `chunk` bytes.
fn read_request(input: &[u8], chunk: usize) -> (Result<Request, HttpError>, usize) {
    let mut rr = RequestReader::new();
    let mut at = 0;
    let mut timeouts = 0;
    for _ in 0..10_000 {
        match rr.step() {
            ReadAction::Read(n) => {
                let take = n.min(chunk).min(input.len() - at);
                rr.feed(&input[at..at + take]);
                at += take;
            }
            ReadAction::ArmTimeout => timeouts += 1,
            ReadAction::Continue => {}
            ReadAction::Done(r) => return (r, timeouts),
        }
    }
    panic!("reading did not end");
}

fn header(h: &Headers, k: &str) -> Option<String> {
    h.get(&k.to_string()).cloned()
}

#[test]
fn reads_a_full_request() {
    let input = b"POST /form HTTP/1.1\r\nHost:  example.org \r\ncontent-LENGTH: 5\r\nConnection: Keep-Alive\r\n\r\nhello";
    for chunk in [1024, 100] {
        let (r, timeouts) = read_request(input, chunk);
        let req = r.ok().unwrap();
        assert_eq!(timeouts, 1);
        assert_eq!(req.method, "POST");
        assert_eq!(req.uri, "/form");
        assert_eq!(req.version, "HTTP/1.1");
        assert_eq!(req.body, b"hello".to_vec());
        assert!(req.keep_alive);
        assert_eq!(req.content_len(), 5);
        assert_eq!(header(&req.headers, "Host"), Some("example.org".to_string()));
        assert_eq!(header(&req.headers, "content-LENGTH"), Some("5".to_string()));
        assert_eq!(req.headers.len(), 3);
        assert!(req.get_response().is_none());
    }
}

#[test]
fn reads_lines_across_small_reads() {
    let input = b"GET / HTTP/1.0\r\nA: 1\r\nA: 2\r\n\r\n";
    let (r, _) = read_request(input, 3);
    let req = r.ok().unwrap();
    assert_eq!(req.method, "GET");
    assert_eq!(header(&req.headers, "A"), Some("2".to_string()));
    assert_eq!(req.headers.len(), 1);
    assert!(!req.keep_alive);
    assert!(req.body.is_empty());
}

#[test]
fn request_errors() {
    assert_eq!(read_request(b"GET /\r\n\r\n", 1024).0.err(), Some(HttpError::BadRequest));
    assert_eq!(read_request(b"GET / HTTP/1.1\r\nHost", 1024).0.err(), Some(HttpError::Eof));
    assert_eq!(read_request(b"", 1024).0.err(), Some(HttpError::Eof));
    assert_eq!(
        read_request(b"GET / HTTP/1.1\r\nContent-Length: 1x\r\n\r\n", 1024).0.err(),
        Some(HttpError::InvalidContentLength(IntErrorKind::InvalidDigit))
    );
    assert_eq!(
        read_request(b"GET / HTTP/1.1\r\nContent-Length:\r\n\r\n", 1024).0.err(),
        Some(HttpError::InvalidContentLength(IntErrorKind::Empty))
    );
    match read_request(b"GET /\xff HTTP/1.1\r\n\r\n", 1024).0 {
        Err(HttpError::InvalidUtf8(m)) => assert_eq!(m, std::str::from_utf8(b"GET /\xff HTTP/1.1").unwrap_err().to_string()),
        _ => panic!("expected a UTF-8 error"),
    }
}

#[test]
fn body_wait_asks_for_as_many_bytes_as_are_buffered() {
    let mut rr = RequestReader::new();
    assert!(matches!(rr.step(), ReadAction::Read(1024)));
    rr.feed(b"GET / HTTP/1.1\r\nContent-Length: 4\r\n\r\nab");
    assert!(matches!(rr.step(), ReadAction::ArmTimeout));
    assert!(matches!(rr.step(), ReadAction::Continue));
    assert!(matches!(rr.step(), ReadAction::Continue));
    assert!(matches!(rr.step(), ReadAction::Continue));
    assert!(matches!(rr.step(), ReadAction::Read(2)));
    rr.feed(b"cd");
    match rr.step() {
        ReadAction::Done(Ok(req)) => assert_eq!(req.body, b"abcd".to_vec()),
        _ => panic!("expected the request"),
    }
}

#[test]
fn buffer_reader_lines_and_blocks() {
    let mut br = BufferReader::new();
    assert!(matches!(br.read_line(), LineStep::Read(1024)));
    br.feed(b"one\ntwo\r\nthr");
    assert!(matches!(br.read_line(), LineStep::Line(Ok(ref s)) if s == "one"));
    br.set_line_sep("\r\n");
    assert!(matches!(br.read_line(), LineStep::Line(Ok(ref s)) if s == "two"));
    assert!(matches!(br.read_line(), LineStep::Read(1024)));
    br.set_truck_size(16);
    assert!(matches!(br.read_line(), LineStep::Read(16)));
    assert!(matches!(br.read_size(3), SizeStep::Bytes(ref v) if v == b"thr"));
    assert!(matches!(br.read_size(5), SizeStep::Read(3)));
    br.feed(b"");
    assert!(matches!(br.read_line(), LineStep::Line(Err(HttpError::Eof))));
    assert!(matches!(br.read_size(1), SizeStep::Read(0)));
}

#[test]
fn naive_separator_matching() {
    let mut br = BufferReader::new();
    br.set_line_sep("\r\n");
    br.feed(b"a\r\r\nb\r\n");
    assert!(matches!(br.read_line(), LineStep::Line(Ok(ref s)) if s == "a\r\r\nb"));
    let mut one = BufferReader::new();
    one.set_line_sep("");
    one.feed(b"xy");
    assert!(matches!(one.read_line(), LineStep::Line(Ok(ref s)) if s == "x"));
    assert!(matches!(one.read_line(), LineStep::Line(Ok(ref s)) if s == "y"));
    assert!(matches!(one.read_line(), LineStep::Read(1024)));
}

#[test]
fn request_line_and_header_parts() {
    let (m, u, v) = parse_request_line("DELETE /x?y=1 HTTP/2").ok().unwrap();
    assert_eq!((m.as_str(), u.as_str(), v.as_str()), ("DELETE", "/x?y=1", "HTTP/2"));
    assert_eq!(parse_request_line("GET  / HTTP/1.1").err(), Some(HttpError::BadRequest));
    assert_eq!(split_header(" Host : a:b "), ("Host".to_string(), "a:b".to_string()));
    assert_eq!(split_header("NoColon"), ("NoColon".to_string(), String::new()));
}

#[test]
fn special_headers() {
    let mut req = Request::empty();
    assert_eq!(handle_special_header(&mut req, "CONNECTION", "keep-alive"), Ok(()));
    assert!(req.keep_alive);
    assert_eq!(handle_special_header(&mut req, "Connection", "close"), Ok(()));
    assert!(req.keep_alive);
    assert_eq!(handle_special_header(&mut req, "Content-Length", "+12"), Ok(()));
    assert_eq!(req.content_len(), 12);
    assert_eq!(
        handle_special_header(&mut req, "content-length", "99999999999999999999999"),
        Err(HttpError::InvalidContentLength(IntErrorKind::PosOverflow))
    );
    assert_eq!(req.content_len(), 12);
}

#[test]
fn headers_read_back_last_value() {
    let mut h = Headers::new();
    assert_eq!(h.insert("A".to_string(), "1".to_string()), None);
    assert_eq!(h.insert("B".to_string(), "2".to_string()), None);
    assert_eq!(h.insert("A".to_string(), "3".to_string()), Some("1".to_string()));
    assert_eq!(header(&h, "A"), Some("3".to_string()));
    assert_eq!(header(&h, "B"), Some("2".to_string()));
    assert_eq!(header(&h, "a"), None);
    assert_eq!(h.len(), 2);
    let (k, v) = h.entry(0);
    assert_eq!((k.as_str(), v.as_str()), ("A", "3"));
}

#[test]
fn response_setters_attach_a_fresh_response() {
    let mut req = Request::empty();
    req.set_status_code(404);
    req.set_response_header("X", "y");
    req.set_response_body(b"gone");
    let r = req.borrow_response_mut();
    assert_eq!(r.status_code, 404);
    assert_eq!(r.version, "HTTP/1.1");
    r.status_code = 410;
    let resp = req.move_response();
    assert_eq!(resp.status_code, 410);
    assert_eq!(resp.body, b"gone".to_vec());
    assert_eq!(header(&resp.headers, "X"), Some("y".to_string()));
    let fresh = Request::empty().move_response();
    assert_eq!(fresh.status_code, 0);
    assert!(fresh.body.is_empty());
    let mut req2 = Request::empty();
    let mut hs = Headers::new();
    hs.insert("K".to_string(), "V".to_string());
    req2.set_response_headers(hs);
    req2.set_response(None);
    assert!(req2.get_response().is_none());
}

#[test]
fn serialized_response_bytes() {
    let mut resp = Response::new();
    resp.status_code = 200;
    resp.body = b"hi".to_vec();
    assert_eq!(serialize_response(&resp), b"HTTP/1.1 200 OK\r\n\r\nhi".to_vec());
    resp.headers.insert("Content-Length".to_string(), "2".to_string());
    resp.headers.insert("X".to_string(), "1".to_string());
    assert_eq!(serialize_response(&resp), b"HTTP/1.1 200 OK\r\nContent-Length:2\r\nX:1\r\n\r\nhi".to_vec());
    resp.status_code = -7;
    assert_eq!(serialize_response(&resp)[..27].to_vec(), b"HTTP/1.1 -7 Unknown Status\r".to_vec());
    assert_eq!(status_text(404), "Not Found");
    assert_eq!(status_text(599), "Unknown Status");
    assert_eq!(i32_to_string(i32::MIN), i32::MIN.to_string());
}

#[test]
fn error_responses() {
    let mut resp = Response::new();
    error_response(&mut resp, &HttpError::BadRequest);
    assert_eq!(resp.status_code, 502);
    assert_eq!(resp.body, b"Server Error: Bad Request".to_vec());
    let mut set = Response::new();
    set.status_code = 400;
    set.body = b"no".to_vec();
    error_response(&mut set, &HttpError::Eof);
    assert_eq!(set.status_code, 400);
    assert_eq!(set.body, b"no".to_vec());
    let r = handle_request(Err(HttpError::InvalidContentLength(IntErrorKind::Empty)), Hello);
    assert_eq!(r.body, b"Server Error: cannot parse integer from empty string".to_vec());
    assert_eq!(HttpError::Eof.message(), "EOF");
    assert!(HttpError::Eof.ends_connection());
    assert!(HttpError::Io { unexpected_eof: true, message: String::new() }.ends_connection());
    assert!(!HttpError::BadRequest.ends_connection());
}

#[derive(Clone, Copy)]
struct Hello;

impl Handler for Hello {
    fn handle(&self, req: &mut Request) -> Result<(), HttpError> {
        req.set_response_body(b"hello, form my resp");
        Ok(())
    }
}

#[derive(Clone, Copy)]
struct Failing;

impl Handler for Failing {
    fn handle(&self, _req: &mut Request) -> Result<(), HttpError> {
        Err(HttpError::Handler("boom".to_string()))
    }
}

#[test]
fn base_handler_completes_the_response() {
    let (r, _) = read_request(b"GET / HTTP/1.0\r\n\r\n", 1024);
    let resp = handle_request(r, BaseHandler { handler: Hello });
    assert_eq!(resp.status_code, 200);
    assert_eq!(resp.version, "HTTP/1.0");
    assert_eq!(header(&resp.headers, "Content-Length"), Some("19".to_string()));
    assert_eq!(
        serialize_response(&resp),
        b"HTTP/1.0 200 OK\r\nContent-Length:19\r\n\r\nhello, form my resp".to_vec()
    );
    let failed = handle_request(Ok(Request::empty()), BaseHandler { handler: Failing });
    assert_eq!(failed.status_code, 502);
    assert_eq!(failed.body, b"Server Error: boom".to_vec());
    let mut req = Request::empty();
    req.set_status_code(201);
    assert_eq!(conclude_request(req, Ok(())).status_code, 201);
    assert!(!keeps_alive(&Err(HttpError::Eof)));
    let (ka, _) = read_request(b"GET / HTTP/1.1\r\nConnection: keep-alive\r\n\r\n", 1024);
    assert!(keeps_alive(&ka));
}

#[test]
fn lowercase_header_effects() {
    let mut req = Request::empty();
    assert_eq!(apply_special_header(&mut req, "connection", "keep-alive"), Ok(()));
    assert!(req.keep_alive);
    let mut req = Request::empty();
    assert_eq!(apply_special_header(&mut req, "Connection", "keep-alive"), Ok(()));
    assert!(!req.keep_alive);
    assert_eq!(apply_special_header(&mut req, "content-length", "42"), Ok(()));
    assert_eq!(req.content_len(), 42);
    assert_eq!(
        apply_special_header(&mut req, "content-length", "4x"),
        Err(HttpError::InvalidContentLength(IntErrorKind::InvalidDigit))
    );
    assert_eq!(req.content_len(), 42);
    assert_eq!(apply_special_header(&mut req, "host", "x"), Ok(()));
    assert_eq!(req.content_len(), 42);
}

#[test]
fn finish_handle_passes_the_outcome_on() {
    let mut req = Request::empty();
    req.version = "HTTP/1.0".to_string();
    req.set_response_body(b"abc");
    assert_eq!(finish_handle(&mut req, Ok(())), Ok(()));
    let resp = req.move_response();
    assert_eq!(resp.version, "HTTP/1.0");
    assert_eq!(header(&resp.headers, "Content-Length"), Some("3".to_string()));

    let mut req = Request::empty();
    req.version = "HTTP/1.0".to_string();
    req.set_response_body(b"abc");
    let out = finish_handle(&mut req, Err(HttpError::Handler("no".to_string())));
    assert_eq!(out, Err(HttpError::Handler("no".to_string())));
    let resp = req.move_response();
    assert_eq!(header(&resp.headers, "Content-Length"), None);
    assert_eq!(resp.version, "HTTP/1.1");
}

fn sorted(mut v: Vec<usize>) -> Vec<usize> {
    v.sort();
    v
}

#[test]
fn pool_bookkeeping() {
    let mut pool = Pool::new(2);
    assert_eq!(sorted(pool.worker_ids()), vec![0, 1]);
    assert_eq!(pool.add_job(), Acquire::Reuse(1));
    assert_eq!(pool.add_job(), Acquire::Reuse(0));
    assert_eq!(pool.add_job(), Acquire::Spawn(2));
    assert_eq!(pool.wait_res(2), Ok(()));
    assert_eq!(pool.wait_res(7), Err(PoolError::NotFound));
    assert_eq!(pool.return_thread(2), Release::Kill);
    assert_eq!(pool.return_thread(1), Release::Park);
    assert_eq!(pool.wait_res(1), Err(PoolError::NotFound));
    assert_eq!(sorted(pool.worker_ids()), vec![0, 1]);
    assert_eq!(pool.add_job(), Acquire::Reuse(1));
    assert_eq!(sorted(pool.shutdown()), vec![0, 1]);
    assert_eq!(pool.worker_ids(), Vec::<usize>::new());
    assert_eq!(take_return::<(), u8>(Signal::Return(3)), Ok(3));
    assert_eq!(take_return::<(), u8>(Signal::Quit), Err(PoolError::NoReturn));
    assert_eq!(PoolError::NotFound.message(), "not found");
}

#[test]
fn pool_queues_a_worker_handed_back_twice() {
    let mut pool = Pool::new(2);
    assert_eq!(pool.waiting_ids(), vec![0, 1]);
    assert_eq!(pool.return_thread(0), Release::Park);
    assert_eq!(pool.waiting_ids(), vec![0, 1, 0]);
    assert_eq!(pool.next_waiting(), Some(0));
    assert_eq!(pool.add_job(), Acquire::Reuse(0));
    assert_eq!(pool.add_job(), Acquire::Reuse(1));
    assert_eq!(sorted(pool.running_ids()), vec![0, 1]);
    assert_eq!(pool.add_job(), Acquire::Reuse(0));
    assert_eq!(sorted(pool.running_ids()), vec![0, 1]);
    assert_eq!(pool.next_waiting(), None);
    assert_eq!(pool.return_thread(1), Release::Park);
    assert_eq!(pool.running_ids(), vec![0]);
    assert_eq!((pool.worker_count(), pool.size()), (2, 2));
    assert_eq!(pool.shutdown(), vec![1, 0]);
}

#[test]
fn serving_steps() {
    assert_eq!(serve_start(), (Serving::Reading, ServeAction::ReadRequest));
    let eof: Result<Request, HttpError> = Err(HttpError::Eof);
    assert_eq!(read_event(&eof), ServeEvent::Read { ends_connection: true, keep_alive: false });
    let bad: Result<Request, HttpError> = Err(HttpError::BadRequest);
    assert_eq!(read_event(&bad), ServeEvent::Read { ends_connection: false, keep_alive: false });
    let mut q = Request::empty();
    assert_eq!(handle_special_header(&mut q, "Connection", "Keep-Alive"), Ok(()));
    assert_eq!(read_event(&Ok(q)), ServeEvent::Read { ends_connection: false, keep_alive: true });
    assert_eq!(
        serve_step(Serving::Reading, ServeEvent::Read { ends_connection: true, keep_alive: false }),
        (Serving::Closed, ServeAction::Close)
    );
    assert_eq!(
        serve_step(Serving::Reading, ServeEvent::Read { ends_connection: false, keep_alive: true }),
        (Serving::Writing { keep_alive: true }, ServeAction::Answer)
    );
    assert_eq!(
        serve_step(Serving::Writing { keep_alive: true }, ServeEvent::Written { ok: true }),
        (Serving::Reading, ServeAction::ReadRequest)
    );
    assert_eq!(
        serve_step(Serving::Writing { keep_alive: true }, ServeEvent::Written { ok: false }),
        (Serving::Closed, ServeAction::Close)
    );
    assert_eq!(
        serve_step(Serving::Writing { keep_alive: false }, ServeEvent::Written { ok: true }),
        (Serving::Closed, ServeAction::Close)
    );
}

#[test]
fn special_headers_in_any_ascii_case() {
    let mut req = Request::empty();
    assert_eq!(handle_special_header(&mut req, "CONTENT-LENGTH", "7"), Ok(()));
    assert_eq!(req.content_len(), 7);
    assert_eq!(handle_special_header(&mut req, "cOnNeCtIoN", "KEEP-alive"), Ok(()));
    assert!(req.keep_alive);
}
