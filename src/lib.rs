//! A command-line HTTP client library: it turns declarative request options
//! into a concrete request, decides how the response and errors are shown,
//! and keeps a one-value cookie jar.
pub mod client;
pub mod cookie;
pub mod error;
pub mod fields;
pub mod header;
pub mod laws;
pub mod opt;
pub mod render;
pub mod text;
