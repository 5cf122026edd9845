//! Properties that hold across the operations of an EVM state, stated over
//! the views the operations' contracts use.
use vstd::prelude::*;

use crate::keys::{account_key, lemma_account_key_injective, lemma_slot_key_injective};
use crate::view::WorldView;
use crate::word::{lemma_word_value_injective, word_value, Word};

verus! {

/// A top-level store, whose base is empty, sees exactly what it holds.
pub proof fn law_store_sees_itself(v: WorldView)
    ensures
        WorldView::overlay(WorldView::empty(), v) == v,
{
    let o = WorldView::overlay(WorldView::empty(), v);
    assert(o.code =~= v.code);
    assert(o.balances =~= v.balances);
    assert(o.nonces =~= v.nonces);
    assert(o.storage =~= v.storage);
    assert(o.logs =~= v.logs);
}

/// Code written at `a` is read back at `a`; reads of every other account are
/// unchanged.
pub proof fn law_code_read_after_write(base: WorldView, local: WorldView, a: [u8; 20], b: [u8; 20], code: Seq<u8>)
    ensures
        WorldView::overlay(base, local.with_code(a, code)).code_of(b) == if a == b {
            Some(code)
        } else {
            WorldView::overlay(base, local).code_of(b)
        },
{
    lemma_account_key_injective(a, b);
}

/// A balance written at `a` is read back at `a`; the balances of every other
/// account are unchanged.
pub proof fn law_balance_read_after_write(base: WorldView, local: WorldView, a: [u8; 20], b: [u8; 20], w: Word)
    ensures
        WorldView::overlay(base, local.with_balance(a, w)).balance_bytes(b) == if a == b {
            w@
        } else {
            WorldView::overlay(base, local).balance_bytes(b)
        },
{
    lemma_account_key_injective(a, b);
}

/// A nonce written at `a` is read back at `a`; the nonces of every other
/// account are unchanged.
pub proof fn law_nonce_read_after_write(base: WorldView, local: WorldView, a: [u8; 20], b: [u8; 20], w: Word)
    ensures
        WorldView::overlay(base, local.with_nonce(a, w)).nonce_bytes(b) == if a == b {
            w@
        } else {
            WorldView::overlay(base, local).nonce_bytes(b)
        },
{
    lemma_account_key_injective(a, b);
}

/// A storage value written at slot `k` of contract `a` is read back there; the
/// slots of every other contract are unchanged, and so are the other slots of
/// `a`, unless the layer held no storage for `a` while its base did: the layer
/// then starts a storage of its own for `a`, which hides the base's.
pub proof fn law_storage_read_after_write(
    base: WorldView,
    local: WorldView,
    a: [u8; 20],
    k: Word,
    b: [u8; 20],
    j: Word,
    v: Word,
)
    requires
        a != b || k == j || local.storage.contains_key(account_key(a)) || !base.storage.contains_key(
            account_key(a),
        ),
    ensures
        WorldView::overlay(base, local.with_storage(a, k, v)).storage_at(b, j) == if a == b && k == j {
            Some(v)
        } else {
            WorldView::overlay(base, local).storage_at(b, j)
        },
{
    lemma_account_key_injective(a, b);
    lemma_slot_key_injective(k, j);
}

/// What a read sees after a layer of changes `c` is committed into a state `l`:
/// the code, balance and nonce of an account come from `c` where `c` holds them
/// and from `l` otherwise; a storage slot comes from `c` where `c` holds that
/// slot and from `l` otherwise, so every slot of `l` that `c` does not write
/// survives; a contract has a storage after the commit exactly when `l` or `c`
/// had one; and the logs of `c` follow those of `l`.
pub proof fn law_commit_reads(l: WorldView, c: WorldView, a: [u8; 20], k: Word)
    ensures
        l.commit(c).code_of(a) == match c.code_of(a) {
            Some(x) => Some(x),
            None => l.code_of(a),
        },
        l.commit(c).balance_bytes(a) == if c.balances.contains_key(account_key(a)) {
            c.balance_bytes(a)
        } else {
            l.balance_bytes(a)
        },
        l.commit(c).nonce_bytes(a) == if c.nonces.contains_key(account_key(a)) {
            c.nonce_bytes(a)
        } else {
            l.nonce_bytes(a)
        },
        l.commit(c).storage_at(a, k) == match c.storage_at(a, k) {
            Some(v) => Some(v),
            None => l.storage_at(a, k),
        },
        l.commit(c).storage.contains_key(account_key(a)) <==> (l.storage.contains_key(account_key(a))
            || c.storage.contains_key(account_key(a))),
        l.commit(c).logs == l.logs + c.logs,
{
}

/// The storage handed out for contract `a` holds exactly the slots a read of
/// `a` sees, and is empty where the contract has no storage.
pub proof fn law_storage_of_reads(w: WorldView, a: [u8; 20], k: Word)
    ensures
        w.storage_of(a).get(crate::keys::slot_key(k)) == w.storage_at(a, k),
        !w.storage.contains_key(account_key(a)) ==> w.storage_of(a) == Map::<crate::keys::SlotKey, Word>::empty(),
{
}

/// The balance and nonce of an account, read as bytes, denote the numbers
/// `balance` and `nonce`, and an account that holds none reads as zero.
pub proof fn law_balance_and_nonce_bytes_denote_values(w: WorldView, a: [u8; 20])
    ensures
        crate::word::be_value(w.balance_bytes(a)) == w.balance(a),
        crate::word::be_value(w.nonce_bytes(a)) == w.nonce(a),
        w.balance_bytes(a).len() == 32,
        w.nonce_bytes(a).len() == 32,
        !w.balances.contains_key(account_key(a)) ==> w.balance(a) == 0,
        !w.nonces.contains_key(account_key(a)) ==> w.nonce(a) == 0,
{
    crate::word::lemma_be_value_zeros(32);
}

/// What a read sees through a layer `top` over `base`: the code, balance and
/// nonce of an account come from `top` where `top` holds them and from `base`
/// otherwise; a storage slot comes from `top`'s storage of the contract where
/// `top` holds one, even if that storage lacks the slot, and from `base`
/// otherwise.
pub proof fn law_overlay_reads(base: WorldView, top: WorldView, a: [u8; 20], k: Word)
    ensures
        WorldView::overlay(base, top).code_of(a) == match top.code_of(a) {
            Some(x) => Some(x),
            None => base.code_of(a),
        },
        WorldView::overlay(base, top).balance_bytes(a) == if top.balances.contains_key(account_key(a)) {
            top.balance_bytes(a)
        } else {
            base.balance_bytes(a)
        },
        WorldView::overlay(base, top).nonce_bytes(a) == if top.nonces.contains_key(account_key(a)) {
            top.nonce_bytes(a)
        } else {
            base.nonce_bytes(a)
        },
        WorldView::overlay(base, top).storage_at(a, k) == if top.storage.contains_key(account_key(a)) {
            top.storage_at(a, k)
        } else {
            base.storage_at(a, k)
        },
{
}

/// Committing a layer of changes `c` into a state's own layer `l` leaves reads
/// as they were through `c` placed over that state: the code, balance and nonce
/// of every account, every storage slot, and the logs; the one exception is a
/// slot that `l` holds while `c` holds a storage for the contract without it,
/// where the merge keeps `l`'s value and the layered read sees none.
pub proof fn law_commit_keeps_layered_reads(base: WorldView, l: WorldView, c: WorldView, a: [u8; 20], k: Word)
    requires
        !(c.storage.contains_key(account_key(a)) && l.storage.contains_key(account_key(a))
            && l.storage[account_key(a)].contains_key(crate::keys::slot_key(k))
            && !c.storage[account_key(a)].contains_key(crate::keys::slot_key(k))),
    ensures
        ({
            let committed = WorldView::overlay(base, l.commit(c));
            let layered = WorldView::overlay(WorldView::overlay(base, l), c);
            &&& committed.code_of(a) == layered.code_of(a)
            &&& committed.balance_bytes(a) == layered.balance_bytes(a)
            &&& committed.nonce_bytes(a) == layered.nonce_bytes(a)
            &&& committed.storage_at(a, k) == layered.storage_at(a, k)
            &&& committed.logs == layered.logs
        }),
{
    let committed = WorldView::overlay(base, l.commit(c));
    let layered = WorldView::overlay(WorldView::overlay(base, l), c);
    assert(committed.logs =~= layered.logs);
}

/// Committing the layer `child` that a sub-state wrote over the top-level
/// store `parent` gives the store what the sub-state showed: the code, balance
/// and nonce of every account, every storage slot, and the logs; the one
/// exception is a slot `parent` holds while `child` holds a storage for the
/// contract without it, which the merge keeps.
pub proof fn law_commit_gives_substate_reads(parent: WorldView, child: WorldView, a: [u8; 20], k: Word)
    requires
        !(child.storage.contains_key(account_key(a)) && parent.storage.contains_key(account_key(a))
            && parent.storage[account_key(a)].contains_key(crate::keys::slot_key(k))
            && !child.storage[account_key(a)].contains_key(crate::keys::slot_key(k))),
    ensures
        ({
            let committed = parent.commit(child);
            let shown = WorldView::overlay(parent, child);
            &&& committed.code_of(a) == shown.code_of(a)
            &&& committed.balance_bytes(a) == shown.balance_bytes(a)
            &&& committed.nonce_bytes(a) == shown.nonce_bytes(a)
            &&& committed.storage_at(a, k) == shown.storage_at(a, k)
            &&& committed.logs == shown.logs
        }),
{
    law_commit_keeps_layered_reads(WorldView::empty(), parent, child, a, k);
    law_store_sees_itself(parent.commit(child));
    law_store_sees_itself(parent);
}

/// Adding an amount to a balance and then taking the same amount away gives
/// back the balance held before.
pub proof fn law_add_then_sub_restores_balance(w: WorldView, a: [u8; 20], amount: Word, raised: Word, lowered: Word)
    requires
        word_value(raised) == w.balance(a) + word_value(amount),
        word_value(lowered) == w.with_balance(a, raised).balance(a) - word_value(amount),
    ensures
        w.with_balance(a, raised).with_balance(a, lowered).balance(a) == w.balance(a),
        w.balances.contains_key(account_key(a)) ==> w.with_balance(a, raised).with_balance(a, lowered) == w,
{
    if w.balances.contains_key(account_key(a)) {
        lemma_word_value_injective(lowered, w.balances[account_key(a)]);
        assert(w.with_balance(a, raised).with_balance(a, lowered).balances =~= w.balances);
    }
}

} // verus!
