//! The decisions of a proxy between chat clients and inference servers.
//!
//! Inference servers hand the reasoning of a model back in a field of its own,
//! `reasoning` or `reasoning_content`. Clients that know neither field see the
//! reasoning inside `<think>` tags at the head of the content instead.

pub mod buffer;
pub mod exchange;
pub mod headers;
pub mod json;
pub mod laws;
pub mod promises;
pub mod reasoning;
pub mod sse;
pub mod strings;

