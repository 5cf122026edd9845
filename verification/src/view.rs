//! The abstract state that the EVM reads and writes: what each account holds,
//! keyed by account and slot keys.
use vstd::prelude::*;

use crate::keys::{account_key, slot_key, AccountKey, SlotKey};
use crate::word::{word_value, zero_bytes, Word};

verus! {

/// Everything an EVM state holds: the code, balance and nonce of each account,
/// the storage of each contract, and the log lines written so far.
pub struct WorldView {
    pub code: Map<AccountKey, Seq<u8>>,
    pub balances: Map<AccountKey, Word>,
    pub nonces: Map<AccountKey, Word>,
    pub storage: Map<AccountKey, Map<SlotKey, Word>>,
    pub logs: Seq<Seq<char>>,
}

impl WorldView {
    /// The state that holds nothing.
    pub open spec fn empty() -> WorldView {
        WorldView {
            code: Map::empty(),
            balances: Map::empty(),
            nonces: Map::empty(),
            storage: Map::empty(),
            logs: Seq::empty(),
        }
    }

    /// The state seen through a layer `top` over `base`: an account's code,
    /// balance and nonce, and a contract's whole storage, come from `top` where
    /// `top` holds them and from `base` otherwise; the logs of `top` follow those
    /// of `base`.
    pub open spec fn overlay(base: WorldView, top: WorldView) -> WorldView {
        WorldView {
            code: base.code.union_prefer_right(top.code),
            balances: base.balances.union_prefer_right(top.balances),
            nonces: base.nonces.union_prefer_right(top.nonces),
            storage: base.storage.union_prefer_right(top.storage),
            logs: base.logs + top.logs,
        }
    }

    /// The code of the account at internal address `a`, if it has any.
    pub open spec fn code_of(self, a: [u8; 20]) -> Option<Seq<u8>> {
        self.code.get(account_key(a))
    }

    /// The bytes of the balance of `a`: zero where none is held.
    pub open spec fn balance_bytes(self, a: [u8; 20]) -> Seq<u8> {
        match self.balances.get(account_key(a)) {
            Some(w) => w@,
            None => zero_bytes(),
        }
    }

    /// The balance of `a` as a number: zero where none is held.
    pub open spec fn balance(self, a: [u8; 20]) -> nat {
        match self.balances.get(account_key(a)) {
            Some(w) => word_value(w),
            None => 0,
        }
    }

    /// The bytes of the nonce of `a`: zero where none is held.
    pub open spec fn nonce_bytes(self, a: [u8; 20]) -> Seq<u8> {
        match self.nonces.get(account_key(a)) {
            Some(w) => w@,
            None => zero_bytes(),
        }
    }

    /// The nonce of `a` as a number: zero where none is held.
    pub open spec fn nonce(self, a: [u8; 20]) -> nat {
        match self.nonces.get(account_key(a)) {
            Some(w) => word_value(w),
            None => 0,
        }
    }

    /// The value in slot `key` of the storage of contract `a`, if any.
    pub open spec fn storage_at(self, a: [u8; 20], key: Word) -> Option<Word> {
        match self.storage.get(account_key(a)) {
            Some(m) => m.get(slot_key(key)),
            None => None,
        }
    }

    /// The storage of contract `a`, empty where it has none.
    pub open spec fn storage_of(self, a: [u8; 20]) -> Map<SlotKey, Word> {
        match self.storage.get(account_key(a)) {
            Some(m) => m,
            None => Map::empty(),
        }
    }

    /// `self` with the code of `a` set to `c`.
    pub open spec fn with_code(self, a: [u8; 20], c: Seq<u8>) -> WorldView {
        WorldView { code: self.code.insert(account_key(a), c), ..self }
    }

    /// `self` with the balance of `a` set to `w`.
    pub open spec fn with_balance(self, a: [u8; 20], w: Word) -> WorldView {
        WorldView { balances: self.balances.insert(account_key(a), w), ..self }
    }

    /// `self` with the nonce of `a` set to `w`.
    pub open spec fn with_nonce(self, a: [u8; 20], w: Word) -> WorldView {
        WorldView { nonces: self.nonces.insert(account_key(a), w), ..self }
    }

    /// `self` with slot `key` of the storage of contract `a` set to `v`.
    pub open spec fn with_storage(self, a: [u8; 20], key: Word, v: Word) -> WorldView {
        WorldView {
            storage: self.storage.insert(account_key(a), self.storage_of(a).insert(slot_key(key), v)),
            ..self
        }
    }

    /// The storages of `self` with those of `other` merged in, slot by slot.
    pub open spec fn merged_storage(
        self,
        other: Map<AccountKey, Map<SlotKey, Word>>,
    ) -> Map<AccountKey, Map<SlotKey, Word>> {
        Map::new(
            |k: AccountKey| self.storage.contains_key(k) || other.contains_key(k),
            |k: AccountKey|
                if other.contains_key(k) {
                    match self.storage.get(k) {
                        Some(m) => m.union_prefer_right(other[k]),
                        None => other[k],
                    }
                } else {
                    self.storage[k]
                },
        )
    }

    /// `self` after the changes `other` holds are committed into it: its code,
    /// balances and nonces replace those of `self` account by account, its
    /// storage is merged slot by slot, and its logs are appended.
    pub open spec fn commit(self, other: WorldView) -> WorldView {
        WorldView {
            code: self.code.union_prefer_right(other.code),
            balances: self.balances.union_prefer_right(other.balances),
            nonces: self.nonces.union_prefer_right(other.nonces),
            storage: self.merged_storage(other.storage),
            logs: self.logs + other.logs,
        }
    }
}

} // verus!
