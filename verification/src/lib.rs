//! A semantic media gallery core: images are indexed by the meaning of
//! their content and retrieved with natural-language queries.
//!
//! Three components compose into a pipeline around one shared resource,
//! the loaded dual-encoder model:
//!
//! - [`embedding`] — the engine mapping images and texts into one shared
//!   vector space of unit-normalized embeddings;
//! - [`discovery`] and [`ingest`] — finding candidate files under a depth
//!   bound, and persisting each one's (media row, embedding row) pair as a
//!   single atomic transaction, with best-effort continuation across a
//!   batch;
//! - [`retrieval`] — ranking stored embeddings against a query embedding
//!   and bounding the result set.
//!
//! Filesystem walks, the database, and the floating-point halves of the
//! model pipeline live outside this crate, which receives their outcomes
//! as plain values: a walked listing, a transaction's fate, a score's bit
//! pattern.  Everything decided on those values is specified and verified
//! here.

pub mod config;
pub mod discovery;
pub mod embedding;
pub mod errors;
pub mod ingest;
pub mod media;
pub mod pathname;
pub mod retrieval;
pub mod seqext;
