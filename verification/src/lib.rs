//! Decoding and display of the "add permissionless delegator" staking
//! transaction of the Avalanche platform chain.
//!
//! An untrusted byte buffer is decoded into an
//! [`AddPermissionlessDelegatorTx`]; the record checks that the stake outputs
//! add up to the validator's weight, can hide change outputs, computes the
//! implicit fee and renders itself item by item into small title and message
//! buffers.

pub mod add_permissionless_delegator;
pub mod address;
pub mod base_tx;
pub mod display;
pub mod errors;
pub mod input;
pub mod laws;
pub mod mask;
pub mod output;
pub mod output_list;
pub mod reader;
pub mod text;
pub mod validator;

pub use add_permissionless_delegator::AddPermissionlessDelegatorTx;
pub use errors::{ParserError, ViewError};
