//! Verified core of a savings record service.
//!
//! The service reads and writes three monetary fields (`savings`,
//! `savings_goal`, `retirement_savings`) on a per-user record in a single
//! table. Monetary amounts are integers in minor currency units; a
//! surrounding web layer converts to and from its wire representation.
//!
//! - [`model`] gives the mathematical model of the table: rows, well-
//!   formedness, lookup and the state transitions of the update operations.
//! - [`service`] holds the executable store and the request handlers'
//!   verified cores, with contracts stated over the model.
//! - [`laws`] proves the update-then-read properties of the operations.

pub mod laws;
pub mod model;
pub mod service;
