//! Account state of an EVM: code, balances, nonces and contract storage,
//! kept in a top-level store or in a nested layer over a parent state.

pub mod keys;
pub mod utils;
pub mod word;
pub mod store;
pub mod view;
pub mod evm_state;
pub mod substate;
pub mod laws;
