//! A stream-partitioning combinator: one producer of sequential items is
//! split, by a classifying predicate, into two independent consumer-facing
//! streams ("left" and "right"). Each side observes exactly the items whose
//! classification matches it, in the original relative order, with no item
//! dropped, duplicated, or reordered.
//!
//! The coordinator here is the decision core: a host scheduler performs the
//! actual source polls and suspensions, feeds every observation back in as a
//! [`event::SourceEvent`], and carries out the wake instructions the
//! coordinator hands out.

pub mod coordinator;
pub mod event;
pub mod laws;
pub mod side;
pub mod slot;
pub mod state;
