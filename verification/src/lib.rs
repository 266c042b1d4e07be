//! Verified core of a collection of small Rust programs: a line-oriented
//! HTTP/1.1 request reader and response writer, a worker-pool bookkeeper,
//! a text search, VGA register programming plans and a few numeric helpers.

pub mod text;
pub mod vga;
pub mod const_demo;
pub mod asm_demo;
pub mod cmp_demo;
pub mod deref_demo;
pub mod borrow_demo;
pub mod clippy_demo;
pub mod unsafe_rust;
pub mod future_demo;
pub mod thread_demo;
pub mod sql;
pub mod http;
pub mod minigrep;
