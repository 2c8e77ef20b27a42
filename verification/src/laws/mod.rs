//! Properties of an m-line and of the operations on it.
//!
//! Those that span several operations are stated over the spec functions that the operations'
//! contracts use: what an operation does to an m-line `m` is `m.polled(..)`, `m.nacked(..)`,
//! `m.written(..)`, `m.changed(..)` and so on. What these are is in turn stated part by part, over
//! the fields of the values alone. [`operations`] and [`parts`] state of every call what it returns
//! and changes.

pub mod delivery;
pub mod description;
pub mod feedback;
pub mod incoming;
pub mod negotiation;
pub mod operations;
pub mod outgoing;
pub mod parts;
pub mod places;
pub mod polling;
pub mod receiving;
pub mod sending;
pub mod values;
