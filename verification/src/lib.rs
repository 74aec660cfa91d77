//! Content-word extraction for puzzle dialogues, with a cache-or-compute
//! protocol around it.
//!
//! The crate holds the pure part of the pipeline: text normalization, the
//! reading of a morphological analyzer's feature strings, part-of-speech
//! classification, the content-word filter, the document stored in the token
//! cache, and the decisions of one request. Talking to the analyzer and to the
//! backing store is left to the caller, who is told what to do next and hands
//! back what happened.

pub mod text;
pub mod normalize;
pub mod features;
pub mod tokenize;
pub mod json;
pub mod models;
pub mod actions;
