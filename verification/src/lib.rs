//! A toast notification core: a publish/subscribe channel that hands
//! notifications to a single registered viewer, a deadline scheduler that
//! keeps at most one timer armed for the earliest pending expiry, and a
//! store of live notifications that reaps expired entries on each tick.
//!
//! Rendering is left to an outside collaborator: the store exposes its
//! ordered collection of live entries and a close-by-id operation, and the
//! scheduler exposes the instant its single timer is armed for, so a host
//! can drive it with a real one-shot timer and a real clock.

pub mod breakpoint;
pub mod channel;
pub mod store;
pub mod scheduler;
pub mod seq_facts;
pub mod toast;
