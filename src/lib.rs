//! Splits a markdown document into bounded-size chunks of rendered markdown text.
//!
//! `chunker` holds the segmentation state machine and its model, `guarantees`
//! what is proved of every chunking, `normalize` the clean-ups that may run on
//! a document first.

pub mod chunker;
pub mod config;
pub mod event;
pub mod guarantees;
pub mod normalize;
pub mod stats;
pub mod text;

pub use chunker::{chunk_events, chunk_text, try_chunk_text};
