//! Validation and field-element encoding of signed Ethereum transactions
//! for relay to a prime-field virtual machine.

pub mod bytes;
pub mod felt;
pub mod rlp;
pub mod calldata;
pub mod crypto;
pub mod tx;
pub mod extract;
pub mod validate;
