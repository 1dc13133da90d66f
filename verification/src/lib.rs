//! A verified repository for transport booking requests.
//!
//! A `Request` row books seats on a tour for a customer. The repository
//! owns the `request` table and enforces its referential and value
//! invariants: every stored request references an existing tour and an
//! existing customer, ids are assigned once and never reused, and the
//! count fields are never negative.

pub mod entities;
pub mod model;
pub mod repository;
pub mod laws;
