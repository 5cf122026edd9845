//! A nested state: a layer of changes over a parent state, read through to the
//! parent where the layer holds nothing.
use std::collections::BTreeMap;

use vstd::prelude::*;

use crate::evm_state::EvmState;
use crate::evm_state::lemma_balance_bound;
use crate::keys::{account_key, account_key_of, lemma_account_key_injective, slot_key_of, SlotKey};
use crate::store::StateStore;
use crate::utils::{evm_account_to_internal_address, Address};
use crate::view::WorldView;
use crate::word::{u256_add, u256_checked_add, u256_checked_sub, Word};

verus! {

/// A state made of the changes in `state` over the state `parent`, for a call
/// made by `msg_sender`.
pub struct SubState<'a, P: EvmState> {
    pub msg_sender: &'a Address,
    pub state: &'a mut StateStore,
    pub parent: &'a P,
}

impl<'a, P: EvmState> SubState<'a, P> {
    /// A state that writes to `state` and reads through to `parent`.
    pub fn new(msg_sender: &'a Address, state: &'a mut StateStore, parent: &'a P) -> (r: SubState<'a, P>)
        ensures
            r.msg_sender == msg_sender,
            r.parent == parent,
            *r.state == *old(state),
            *final(r.state) == *final(state),
            r.local() == old(state)@,
            r.base() == WorldView::overlay(parent.base(), parent.local()),
    {
        SubState { msg_sender, state, parent }
    }

    /// The storage this state holds itself for contract `address`, if any.
    pub fn contract_storage(&self, address: [u8; 20]) -> (r: Option<&BTreeMap<SlotKey, Word>>)
        ensures
            r is Some <==> self.local().storage.contains_key(account_key(address)),
            r matches Some(s) ==> s@ == self.local().storage[account_key(address)],
    {
        self.state.storages.get(&account_key_of(&address))
    }

    /// The storage this state holds itself for contract `address`, created
    /// empty if it has none, to be written through the reference.
    pub fn mut_contract_storage(&mut self, address: [u8; 20]) -> (r: &mut BTreeMap<SlotKey, Word>)
        ensures
            r@ == old(self).local().storage_of(address),
            final(self).msg_sender == old(self).msg_sender,
            final(self).parent == old(self).parent,
            *final(final(self).state) == *final(old(self).state),
            final(self).local() == (WorldView {
                storage: old(self).local().storage.insert(account_key(address), final(r)@),
                ..old(self).local()
            }),
    {
        self.state.mut_contract_storage(address)
    }
}

impl<'a, P: EvmState> EvmState for SubState<'a, P> {
    /// Reads fall back on everything the parent sees.
    open spec fn base(&self) -> WorldView {
        WorldView::overlay(self.parent.base(), self.parent.local())
    }

    open spec fn local(&self) -> WorldView {
        (*self.state)@
    }

    fn code_at(&self, address: &Address) -> (r: Option<Vec<u8>>) {
        let internal_addr = evm_account_to_internal_address(*address);
        match self.state.code.get(&account_key_of(&internal_addr)) {
            Some(c) => Some(c.clone()),
            None => self.parent.code_at(address),
        }
    }

    fn set_code(&mut self, address: &Address, bytecode: &[u8])
        ensures
            final(self).msg_sender == old(self).msg_sender,
            final(self).parent == old(self).parent,
            *final(final(self).state) == *final(old(self).state),
    {
        let internal_addr = evm_account_to_internal_address(*address);
        self.state.code.insert(account_key_of(&internal_addr), vstd::slice::slice_to_vec(bytecode));
        assert(self.local().code =~= old(self).local().code.insert(account_key(address.0), bytecode@));
    }

    fn set_balance(&mut self, address: &Address, balance: Word) -> (r: Option<Word>)
        ensures
            final(self).msg_sender == old(self).msg_sender,
            final(self).parent == old(self).parent,
            *final(final(self).state) == *final(old(self).state),
    {
        let bin = balance;
        let internal_addr = evm_account_to_internal_address(*address);
        self._set_balance(internal_addr, bin)
    }

    fn set_nonce(&mut self, address: &Address, nonce: Word) -> (r: Option<Word>)
        ensures
            final(self).msg_sender == old(self).msg_sender,
            final(self).parent == old(self).parent,
            *final(final(self).state) == *final(old(self).state),
    {
        let bin = nonce;
        let internal_addr = evm_account_to_internal_address(*address);
        self._set_nonce(internal_addr, bin)
    }

    fn next_nonce(&mut self, address: &Address) -> (r: Word)
        ensures
            final(self).msg_sender == old(self).msg_sender,
            final(self).parent == old(self).parent,
            *final(final(self).state) == *final(old(self).state),
    {
        let nonce = self.nonce_of(address);
        let next = u256_add(nonce, 1);
        self.set_nonce(address, next);
        nonce
    }

    fn add_balance(&mut self, address: &Address, incr: Word) -> (r: Option<Word>)
        ensures
            final(self).msg_sender == old(self).msg_sender,
            final(self).parent == old(self).parent,
            *final(final(self).state) == *final(old(self).state),
    {
        let balance = self.balance_of(address);
        let new_balance = match u256_checked_add(balance, incr) {
            Some(v) => v,
            None => vstd::pervasive::unreached(),
        };
        self.set_balance(address, new_balance)
    }

    fn sub_balance(&mut self, address: &Address, decr: Word) -> (r: Option<Word>)
        ensures
            final(self).msg_sender == old(self).msg_sender,
            final(self).parent == old(self).parent,
            *final(final(self).state) == *final(old(self).state),
    {
        let balance = self.balance_of(address);
        let new_balance = match u256_checked_sub(balance, decr) {
            Some(v) => v,
            None => vstd::pervasive::unreached(),
        };
        self.set_balance(address, new_balance)
    }

    fn transfer_balance(&mut self, sender: &Address, recipient: &Address, amnt: Word)
        ensures
            final(self).msg_sender == old(self).msg_sender,
            final(self).parent == old(self).parent,
            *final(final(self).state) == *final(old(self).state),
    {
        let ghost start = self.local();
        proof {
            lemma_account_key_injective(sender.0, recipient.0);
            lemma_balance_bound(WorldView::overlay(self.base(), self.local()), recipient.0);
        }
        self.sub_balance(sender, amnt);
        let ghost middle = self.local();
        self.add_balance(recipient, amnt);
        proof {
            let ks = account_key(sender.0);
            let kr = account_key(recipient.0);
            let y = middle.balances[ks];
            let x = self.local().balances[kr];
            if ks == kr {
                assert(start.with_balance(sender.0, y).with_balance(recipient.0, x).balances
                    =~= start.with_balance(sender.0, x).with_balance(recipient.0, x).balances);
                assert(start.with_balance(sender.0, y).with_balance(recipient.0, x)
                    == start.with_balance(sender.0, x).with_balance(recipient.0, x));
            }
        }
    }

    fn _balance_of(&self, address: [u8; 20]) -> (r: Word) {
        match self.state.balances.get(&account_key_of(&address)) {
            Some(b) => *b,
            None => self.parent._balance_of(address),
        }
    }

    fn _set_balance(&mut self, address: [u8; 20], balance: Word) -> (r: Option<Word>)
        ensures
            final(self).msg_sender == old(self).msg_sender,
            final(self).parent == old(self).parent,
            *final(final(self).state) == *final(old(self).state),
    {
        self.state.balances.insert(account_key_of(&address), balance)
    }

    fn _nonce_of(&self, address: [u8; 20]) -> (r: Word) {
        match self.state.nonces.get(&account_key_of(&address)) {
            Some(n) => *n,
            None => self.parent._nonce_of(address),
        }
    }

    fn _set_nonce(&mut self, address: [u8; 20], nonce: Word) -> (r: Option<Word>)
        ensures
            final(self).msg_sender == old(self).msg_sender,
            final(self).parent == old(self).parent,
            *final(final(self).state) == *final(old(self).state),
    {
        self.state.nonces.insert(account_key_of(&address), nonce)
    }

    fn read_contract_storage(&self, address: &Address, key: Word) -> (r: Option<Word>) {
        let internal_addr = evm_account_to_internal_address(*address);
        match self.contract_storage(internal_addr) {
            Some(s) => match s.get(&slot_key_of(&key)) {
                Some(v) => Some(*v),
                None => None,
            },
            None => self.parent.read_contract_storage(address, key),
        }
    }

    fn set_contract_storage(&mut self, address: &Address, key: Word, value: Word) -> (r: Option<Word>)
        ensures
            final(self).msg_sender == old(self).msg_sender,
            final(self).parent == old(self).parent,
            *final(final(self).state) == *final(old(self).state),
    {
        let internal_addr = evm_account_to_internal_address(*address);
        let storage = self.mut_contract_storage(internal_addr);
        let r = storage.insert(slot_key_of(&key), value);
        assert(self.local().storage =~= old(self).local().with_storage(address.0, key, value).storage);
        r
    }

    fn commit_changes(&mut self, other: &StateStore)
        ensures
            final(self).msg_sender == old(self).msg_sender,
            final(self).parent == old(self).parent,
            *final(final(self).state) == *final(old(self).state),
    {
        self.state.commit_code(&other.code);
        self.state.commit_balances(&other.balances);
        self.state.commit_nonces(&other.nonces);
        self.state.commit_storages(&other.storages);
        crate::store::append_logs(&mut self.state.logs, &other.logs);
    }
}

} // verus!
