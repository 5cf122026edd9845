//! The interface of an EVM state: reads see the state as a whole, writes go to
//! the layer the state holds itself.
use vstd::prelude::*;

use crate::keys::account_key;
use crate::store::StateStore;
use crate::utils::{evm_account_to_internal_address, Address};
use crate::view::WorldView;
use crate::word::{
    lemma_be_value_zeros, u256_add, u256_checked_add, u256_checked_sub, word_bound, word_value, Word,
};

verus! {

/// A balance, as a number, is below the bound of a word.
pub(crate) proof fn lemma_balance_bound(w: WorldView, a: [u8; 20])
    ensures
        w.balance(a) < word_bound(),
{
    if w.balances.contains_key(account_key(a)) {
        crate::word::lemma_be_value_bound(w.balances[account_key(a)]@);
    } else {
        crate::word::lemma_pow256_positive(32);
    }
}

/// The account state the EVM runs against.
pub trait EvmState {
    /// The state that reads fall back on where this one holds nothing itself.
    spec fn base(&self) -> WorldView;

    /// What this state holds itself; every write goes here.
    spec fn local(&self) -> WorldView;

    /// The code of the account at `address`, if it has any.
    fn code_at(&self, address: &Address) -> (r: Option<Vec<u8>>)
        ensures
            r is Some <==> WorldView::overlay(self.base(), self.local()).code_of(address.0) is Some,
            r matches Some(c) ==> WorldView::overlay(self.base(), self.local()).code_of(address.0) == Some(c@),
    ;

    /// Sets the code of the account at `address`.
    fn set_code(&mut self, address: &Address, bytecode: &[u8])
        ensures
            final(self).base() == old(self).base(),
            final(self).local() == old(self).local().with_code(address.0, bytecode@),
    ;

    /// Sets the balance held for the internal address `address`; returns the
    /// balance this state held there itself before.
    fn _set_balance(&mut self, address: [u8; 20], balance: Word) -> (r: Option<Word>)
        ensures
            final(self).base() == old(self).base(),
            final(self).local() == old(self).local().with_balance(address, balance),
            r == old(self).local().balances.get(account_key(address)),
    ;

    /// Sets the balance of the account at `address`; returns the balance this
    /// state held there itself before.
    fn set_balance(&mut self, address: &Address, balance: Word) -> (r: Option<Word>)
        ensures
            final(self).base() == old(self).base(),
            final(self).local() == old(self).local().with_balance(address.0, balance),
            r == old(self).local().balances.get(account_key(address.0)),
    {
        let bin = balance;
        let internal_addr = evm_account_to_internal_address(*address);
        self._set_balance(internal_addr, bin)
    }

    /// The balance of the internal address `address`: zero where none is held.
    fn _balance_of(&self, address: [u8; 20]) -> (r: Word)
        ensures
            r@ == WorldView::overlay(self.base(), self.local()).balance_bytes(address),
    ;

    /// The balance of the account at `address`: zero where none is held.
    fn balance_of(&self, address: &Address) -> (r: Word)
        ensures
            r@ == WorldView::overlay(self.base(), self.local()).balance_bytes(address.0),
            word_value(r) == WorldView::overlay(self.base(), self.local()).balance(address.0),
    {
        let internal_addr = evm_account_to_internal_address(*address);
        let r = self._balance_of(internal_addr);
        proof {
            lemma_be_value_zeros(32);
        }
        r
    }

    /// Sets the nonce held for the internal address `address`; returns the
    /// nonce this state held there itself before.
    fn _set_nonce(&mut self, address: [u8; 20], nonce: Word) -> (r: Option<Word>)
        ensures
            final(self).base() == old(self).base(),
            final(self).local() == old(self).local().with_nonce(address, nonce),
            r == old(self).local().nonces.get(account_key(address)),
    ;

    /// Sets the nonce of the account at `address`; returns the nonce this state
    /// held there itself before.
    fn set_nonce(&mut self, address: &Address, nonce: Word) -> (r: Option<Word>)
        ensures
            final(self).base() == old(self).base(),
            final(self).local() == old(self).local().with_nonce(address.0, nonce),
            r == old(self).local().nonces.get(account_key(address.0)),
    {
        let bin = nonce;
        let internal_addr = evm_account_to_internal_address(*address);
        self._set_nonce(internal_addr, bin)
    }

    /// The nonce of the internal address `address`: zero where none is held.
    fn _nonce_of(&self, address: [u8; 20]) -> (r: Word)
        ensures
            r@ == WorldView::overlay(self.base(), self.local()).nonce_bytes(address),
    ;

    /// The nonce of the account at `address`: zero where none is held.
    fn nonce_of(&self, address: &Address) -> (r: Word)
        ensures
            r@ == WorldView::overlay(self.base(), self.local()).nonce_bytes(address.0),
            word_value(r) == WorldView::overlay(self.base(), self.local()).nonce(address.0),
    {
        let internal_addr = evm_account_to_internal_address(*address);
        let r = self._nonce_of(internal_addr);
        proof {
            lemma_be_value_zeros(32);
        }
        r
    }

    /// Returns the nonce of the account at `address` and sets it to one more.
    fn next_nonce(&mut self, address: &Address) -> (r: Word)
        requires
            WorldView::overlay(old(self).base(), old(self).local()).nonce(address.0) + 1 < word_bound(),
        ensures
            r@ == WorldView::overlay(old(self).base(), old(self).local()).nonce_bytes(address.0),
            final(self).base() == old(self).base(),
            final(self).local() == old(self).local().with_nonce(
                address.0,
                final(self).local().nonces[account_key(address.0)],
            ),
            word_value(final(self).local().nonces[account_key(address.0)]) == WorldView::overlay(old(self).base(), old(self).local()).nonce(
                address.0,
            ) + 1,
    {
        let nonce = self.nonce_of(address);
        let next = u256_add(nonce, 1);
        self.set_nonce(address, next);
        nonce
    }

    /// The value in slot `key` of the storage of the contract at `address`.
    fn read_contract_storage(&self, address: &Address, key: Word) -> (r: Option<Word>)
        ensures
            r == WorldView::overlay(self.base(), self.local()).storage_at(address.0, key),
    ;

    /// Sets slot `key` of the storage of the contract at `address`; returns the
    /// value this state held there itself before.
    fn set_contract_storage(&mut self, address: &Address, key: Word, value: Word) -> (r: Option<Word>)
        ensures
            final(self).base() == old(self).base(),
            final(self).local() == old(self).local().with_storage(address.0, key, value),
            r == old(self).local().storage_at(address.0, key),
    ;

    /// Commits the changes that `other` holds into this state's own layer.
    fn commit_changes(&mut self, other: &StateStore)
        ensures
            final(self).base() == old(self).base(),
            final(self).local() == old(self).local().commit(other@),
    ;

    /// Adds `incr` to the balance of the account at `address`; returns the
    /// balance this state held there itself before.
    fn add_balance(&mut self, address: &Address, incr: Word) -> (r: Option<Word>)
        requires
            WorldView::overlay(old(self).base(), old(self).local()).balance(address.0) + word_value(incr) < word_bound(),
        ensures
            final(self).base() == old(self).base(),
            final(self).local() == old(self).local().with_balance(
                address.0,
                final(self).local().balances[account_key(address.0)],
            ),
            word_value(final(self).local().balances[account_key(address.0)]) == WorldView::overlay(old(self).base(), old(self).local()).balance(address.0) + word_value(incr),
            r == old(self).local().balances.get(account_key(address.0)),
    {
        let balance = self.balance_of(address);
        let new_balance = match u256_checked_add(balance, incr) {
            Some(v) => v,
            None => vstd::pervasive::unreached(),
        };
        self.set_balance(address, new_balance)
    }

    /// Takes `decr` from the balance of the account at `address`; returns the
    /// balance this state held there itself before.
    fn sub_balance(&mut self, address: &Address, decr: Word) -> (r: Option<Word>)
        requires
            word_value(decr) <= WorldView::overlay(old(self).base(), old(self).local()).balance(address.0),
        ensures
            final(self).base() == old(self).base(),
            final(self).local() == old(self).local().with_balance(
                address.0,
                final(self).local().balances[account_key(address.0)],
            ),
            word_value(final(self).local().balances[account_key(address.0)]) == WorldView::overlay(old(self).base(), old(self).local()).balance(address.0) - word_value(decr),
            r == old(self).local().balances.get(account_key(address.0)),
    {
        let balance = self.balance_of(address);
        let new_balance = match u256_checked_sub(balance, decr) {
            Some(v) => v,
            None => vstd::pervasive::unreached(),
        };
        self.set_balance(address, new_balance)
    }

    /// Moves `amnt` from the balance of `sender` to that of `recipient`.
    fn transfer_balance(&mut self, sender: &Address, recipient: &Address, amnt: Word)
        requires
            word_value(amnt) <= WorldView::overlay(old(self).base(), old(self).local()).balance(sender.0),
            sender.0 == recipient.0 || WorldView::overlay(old(self).base(), old(self).local()).balance(recipient.0) + word_value(amnt)
                < word_bound(),
        ensures
            final(self).base() == old(self).base(),
            final(self).local() == old(self).local().with_balance(
                sender.0,
                final(self).local().balances[account_key(sender.0)],
            ).with_balance(recipient.0, final(self).local().balances[account_key(recipient.0)]),
            sender.0 != recipient.0 ==> WorldView::overlay(final(self).base(), final(self).local()).balance(sender.0) == WorldView::overlay(old(self).base(), old(self).local()).balance(sender.0) - word_value(amnt),
            sender.0 != recipient.0 ==> WorldView::overlay(final(self).base(), final(self).local()).balance(recipient.0) == WorldView::overlay(old(self).base(), old(self).local()).balance(recipient.0) + word_value(amnt),
            sender.0 == recipient.0 ==> WorldView::overlay(final(self).base(), final(self).local()).balance(sender.0) == WorldView::overlay(old(self).base(), old(self).local()).balance(sender.0),
            WorldView::overlay(final(self).base(), final(self).local()).balance(sender.0) + WorldView::overlay(final(self).base(), final(self).local()).balance(recipient.0)
                == WorldView::overlay(old(self).base(), old(self).local()).balance(sender.0) + WorldView::overlay(old(self).base(), old(self).local()).balance(recipient.0),
    {
        let ghost start = self.local();
        proof {
            crate::keys::lemma_account_key_injective(sender.0, recipient.0);
            lemma_balance_bound(WorldView::overlay(self.base(), self.local()), recipient.0);
        }
        self.sub_balance(sender, amnt);
        let ghost middle = self.local();
        self.add_balance(recipient, amnt);
        proof {
            let ks = account_key(sender.0);
            let kr = account_key(recipient.0);
            let y = middle.balances[ks];
            let x = self.local().balances[kr];
            if ks == kr {
                assert(start.with_balance(sender.0, y).with_balance(recipient.0, x).balances
                    =~= start.with_balance(sender.0, x).with_balance(recipient.0, x).balances);
                assert(start.with_balance(sender.0, y).with_balance(recipient.0, x)
                    == start.with_balance(sender.0, x).with_balance(recipient.0, x));
            }
        }
    }
}

} // verus!
