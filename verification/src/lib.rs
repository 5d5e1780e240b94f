//! A store of named numeric series that is read and advanced by streaming sessions.
//!
//! Raw values are fixed-point numbers (see [`fixed`]); what a listener is shown of a
//! series is computed from its raw value by a function that the store is built with.

pub mod fixed;
pub mod registration;
pub mod session;
pub mod session_laws;
pub mod store;
pub mod store_laws;
