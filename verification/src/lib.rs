//! Pieces of a zero-knowledge virtual machine, verified: the `sub.w`
//! instruction, the decryption of records, the check of state paths, and the
//! byte encoding of transactions. The cryptographic primitives (hashes, Merkle
//! paths, scalar multiplication), the reading of a transaction's parts and the
//! ids of transactions come from the environment, through the `Aleo` and `Network` traits.

pub mod bytes;
pub mod field;
pub mod value;
pub mod instruction;
pub mod aleo;
pub mod record;
pub mod state_path;
pub mod transaction;
