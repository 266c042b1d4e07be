//! A small HTTP/1.1 server core: buffered line reading, request parsing,
//! responses and the bookkeeping of a worker pool.

pub mod buf_reader;
pub mod connection;
pub mod error;
pub mod handler;
pub mod headers;
pub mod request;
pub mod reading;
pub mod response;
pub mod thread_pool;
