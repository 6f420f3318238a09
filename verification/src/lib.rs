//! An ephemeral content store ("paste") with two independent expiry policies
//! per item: an absolute wall-clock deadline and a remaining-view counter.
//! Viewing a paste atomically checks and decrements the view counter; an
//! exhausted or time-lapsed item reads as absent. A token-bucket admission
//! controller guards the write path, one bucket per client identity.
//!
//! The store and the admission controller keep their state in memory and are
//! fully verified against map models of their contents; the surrounding
//! process (HTTP transport, persistence, outbound mail delivery) lives outside
//! this crate and drives it with plain values, supplying the current time in
//! milliseconds wherever an operation depends on the clock.

pub mod cache;
pub mod config;
pub mod decimal;
pub mod error;
pub mod keyed;
pub mod limiter;
pub mod mailer;
pub mod paste;
pub mod report;
pub mod text;
