//! A verified core for re-analyzing a media library in bulk.
//!
//! `pipeline` holds the bounded, cancellable, progress-reporting pipeline
//! that streams records from a paginated source through a capped pool of
//! analysis workers; `grouping` the letter index over transliterated names;
//! `cover_ids` the cover-art fan-out join.  Asynchronous scheduling and
//! storage I/O live outside; everything that decides or computes is here,
//! specified and proved.

pub mod cover_ids;
pub mod grouping;
pub mod pipeline;
