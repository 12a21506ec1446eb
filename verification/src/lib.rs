//! A small, periodically refreshed, ranked in-memory list of news items.
//!
//! The library covers the refreshable cache itself: merging a fresh fetch
//! with the previous generation so that first-seen timestamps survive the
//! wholesale replacement of the list, publishing and snapshotting whole
//! generations, classifying items for a reader against a last-visit marker,
//! reading that marker out of a cookie header, and decoding the item
//! source's JSON payloads. Network I/O and markup generation sit outside.

pub mod cache;
pub mod classify;
pub mod cookie;
pub mod item;
pub mod merge;
pub mod refresh;
pub mod source;
