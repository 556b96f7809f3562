//! Mirror pipeline and content rendering for a remote wiki: building the
//! category tree, spreading it over workers, deciding each worker's steps,
//! rendering pages and judging the freshness of cached copies.

pub mod text;
pub mod distribute;
pub mod tree;
pub mod formats;
pub mod error;
pub mod cache;
pub mod mirror;
pub mod search;
pub mod langs;
pub mod list;
pub mod args;
pub mod wasm_args;
pub mod api;
pub mod info;
pub mod progress;
