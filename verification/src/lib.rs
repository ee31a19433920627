//! A content-addressed ownership registry.
//!
//! Each record is addressed by a fixed-size digest of its content fields; the
//! registry maps that identity to the owning identity and the ledger height at
//! which ownership was established. Three operations — create, delete and
//! transfer — validate fully before mutating, so every failure leaves the map
//! untouched, and every completed operation emits one domain event.

pub mod content;
pub mod errors;
pub mod guard;
pub mod hashing;
pub mod laws;
pub mod registry;
pub mod store;

pub use content::Student;
pub use errors::Error;
pub use registry::Event;
pub use registry::Pallet;
