//! The native core of a tracer: a store of spans and traces that a binary
//! instruction stream fills, and from which finished chunks are taken.

pub mod change_buffer;
pub mod counting;
pub mod decoder;
pub mod error;
pub mod flusher;
pub mod http;
pub mod laws;
pub mod library_config;
pub mod model;
pub mod native_span;
pub mod process_discovery;
pub mod state;
pub mod string_table;
pub mod tag_map;
pub mod test_config;
pub mod text;
pub mod trace;
pub mod unhandled_exception;
pub mod zstd;
