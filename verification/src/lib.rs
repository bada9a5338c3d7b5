//! Prefixed globally-unique identifiers.
//!
//! An identifier packs a short human-readable prefix together with a binary
//! payload (timestamp, machine id, process id, monotonic counter) into sixteen
//! bytes, and renders the payload through a fixed base-32 codec as
//! `acct_9m4e2mr0ui3e8a215n4g`.

pub mod codec;
pub mod error;
pub mod factory;
pub mod host_id;
pub mod id;
pub mod laws;

pub use error::{DecodeError, Error};
pub use factory::Factory;
pub use host_id::{machine_id_from_host, MachineIdBytes};
pub use id::{Bytes, Pxid};
