//! Authorization-aware data-access core of an OpenADR 3 VTN server.
//!
//! The crate models the identity and role set carried by an authenticated
//! caller, the permission rules that gate every create/read/update/delete,
//! the validated filter and pagination parameters shared by all list
//! operations, and an in-memory storage backend that enforces those rules
//! at the data layer.  HTTP routing, wire-format (de)serialization and
//! credential validation live outside this crate.

pub mod data_source;
pub mod error;
pub mod identity;
pub mod pagination;
pub mod permission;
pub mod program;
pub mod report;
pub mod resource;
pub mod state;
pub mod target;
pub mod text;
pub mod time;
pub mod ven;

pub use error::AppError;
