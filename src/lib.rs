//! The core of a small HTTP server: a table of routes matched against the raw
//! request line, sub-routers mounted under a path prefix, and the bytes of the
//! responses it writes.

pub mod method;
pub mod path;
pub mod response;
pub mod server;
