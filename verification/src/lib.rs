//! Oracle-attested outcome settlement: an administrator-controlled registry of
//! oracle keys and a write-once ledger of settled calls, with every operation
//! specified and proved against a mathematical model of the contract state.
//!
//! - [`message`]: the canonical byte encoding of a settlement claim.
//! - [`signature`]: Ed25519 verification, the one trusted primitive.
//! - [`registry`]: the set of authorized oracle keys.
//! - [`manager`]: the contract state and its five operations.
//! - [`model`]: what each operation makes of a state, as mathematics.
//! - [`laws`]: what is proved of every state and every sequence of operations.
//! - [`address`], [`bytes`], [`error`]: principals, byte strings, failures.

pub mod address;
pub mod bytes;
pub mod error;
pub mod laws;
pub mod manager;
pub mod message;
pub mod model;
pub mod registry;
pub mod signature;

pub use address::Address;
pub use error::ContractError;
pub use manager::{DataKey, OutcomeManager, Signature};
pub use message::build_message;
pub use registry::{OracleSet, PublicKey};
pub use signature::verify_signature;
