//! Account addresses as the EVM names them, and the internal form the state
//! is keyed by.
use vstd::prelude::*;

verus! {

/// A 20-byte EVM account address.
#[derive(Clone, Copy, Debug)]
pub struct Address(pub [u8; 20]);

/// The internal address under which the state keeps an EVM account: its 20 bytes.
pub fn evm_account_to_internal_address(addr: Address) -> (internal: [u8; 20])
    ensures
        internal == addr.0,
{
    addr.0
}

} // verus!
