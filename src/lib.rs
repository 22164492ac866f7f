//! A hardware-rooted trust chain and a single-use key ledger.
//!
//! A root authority approves manufacturers, manufacturers vouch for devices, and
//! each device holds a time-bounded attestation (`attestation`). Each device also
//! owns a pool of one-time keys; consuming a key records the transaction it
//! authorised and a proof that its private key was destroyed, so that no key can
//! sign twice (`encumbrance`). `digest` derives destruction-proof payloads and
//! transaction fingerprints; `table` models the keyed record stores.

pub mod attestation;
pub mod bytes;
pub mod digest;
pub mod encumbrance;
pub mod table;
