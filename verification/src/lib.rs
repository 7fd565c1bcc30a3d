//! Coordinator-side registry for remote proxy nodes.
//!
//! Nodes register a long-term credential once, then open a live connection on
//! which a per-connection session authenticates them and tracks the address
//! they report. The crate holds the two registries (long-term records and
//! currently live nodes), the session state machine that mediates every
//! access to them, and the credential store behind the operator login.

pub mod active;
pub mod keyed;
pub mod models;
pub mod names;
pub mod session;
pub mod store;
pub mod users;
