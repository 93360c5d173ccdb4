//! A local media-streaming core: an identifier registry for video files,
//! HTTP byte-range parsing, the decisions of a range-aware media responder,
//! and the bookkeeping of a progressive transcode cache.
//!
//! Everything here computes on plain values; the binary around it performs
//! the file reads, the process launches and the socket work.

pub mod text;
pub mod ident;
pub mod registry;
pub mod range;
pub mod media;
pub mod responder;
pub mod transcode;
