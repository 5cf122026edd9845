# evm_state

The account state an EVM runs against: code, balances, nonces and contract
storage of each account, kept either in a top-level `StateStore` or in a
`SubState`, a layer of changes over a parent state that reads through to the
parent where it holds nothing and that can later be committed into it.

Layout:

- `src/word.rs`: 32-byte big-endian words, their numeric value, and the 256-bit
  arithmetic done with `ethereum_types::U256`.
- `src/keys.rs`: the ordered map keys of accounts and storage slots.
- `src/utils.rs`: addresses.
- `src/view.rs`: `WorldView`, the abstract state the contracts speak of.
- `src/evm_state.rs`: the `EvmState` trait.
- `src/store.rs`, `src/substate.rs`: the two states.
- `src/laws.rs`: properties across operations.
- `app/lib.rs`: the same operations on `ethereum_types` addresses and `U256`.
