//! The ordered keys under which the state's maps hold accounts and storage
//! slots: the big-endian value of the bytes, split into machine integers.
use vstd::prelude::*;

use crate::word::{be_value, pow256, lemma_be_value_bound, lemma_be_value_injective, Word};

verus! {

/// The map key of an account: the big-endian value of its first 16 bytes and of
/// its last 4 bytes.
pub type AccountKey = (u128, u32);

/// The map key of a storage slot: the big-endian value of its first and of its
/// last 16 bytes.
pub type SlotKey = (u128, u128);

/// The key of the account with internal address `a`.
pub open spec fn account_key(a: [u8; 20]) -> AccountKey {
    (be_value(a@.subrange(0, 16)) as u128, be_value(a@.subrange(16, 20)) as u32)
}

/// The key of the storage slot `k`.
pub open spec fn slot_key(k: Word) -> SlotKey {
    (be_value(k@.subrange(0, 16)) as u128, be_value(k@.subrange(16, 32)) as u128)
}

proof fn lemma_pow256_monotone(m: nat, n: nat)
    requires
        m <= n,
    ensures
        pow256(m) <= pow256(n),
    decreases n,
{
    if m < n {
        lemma_pow256_monotone(m, (n - 1) as nat);
    }
}

proof fn lemma_pow256_values()
    ensures
        pow256(4) == 0x1_0000_0000,
        pow256(16) == 0x1_0000_0000_0000_0000_0000_0000_0000_0000,
{
    reveal_with_fuel(pow256, 17);
}

/// The big-endian value of `a[lo..hi]`, for at most 16 bytes.
fn be_u128<const N: usize>(a: &[u8; N], lo: usize, hi: usize) -> (v: u128)
    requires
        lo <= hi <= N,
        hi - lo <= 16,
    ensures
        v as nat == be_value(a@.subrange(lo as int, hi as int)),
        v < pow256((hi - lo) as nat),
{
    let mut acc: u128 = 0;
    let mut i: usize = lo;
    assert(a@.subrange(lo as int, lo as int) =~= Seq::<u8>::empty());
    while i < hi
        invariant
            lo <= i <= hi <= N,
            hi - lo <= 16,
            a@.len() == N,
            acc as nat == be_value(a@.subrange(lo as int, i as int)),
            acc < pow256((i - lo) as nat),
        decreases hi - i,
    {
        let b = a[i];
        proof {
            let k = (i - lo) as nat;
            lemma_pow256_monotone(k + 1, 16);
            lemma_pow256_values();
            assert(acc * 256 + b < 256 * pow256(k)) by (nonlinear_arith)
                requires
                    acc < pow256(k),
                    b < 256,
            ;
            assert(pow256(k + 1) == 256 * pow256(k));
            let next = a@.subrange(lo as int, i + 1);
            assert(next.drop_last() =~= a@.subrange(lo as int, i as int));
            assert(next.last() == b);
        }
        acc = acc * 256 + b as u128;
        i = i + 1;
    }
    acc
}

/// Computes the key of the account with internal address `a`.
pub fn account_key_of(a: &[u8; 20]) -> (k: AccountKey)
    ensures
        k == account_key(*a),
{
    let high = be_u128(a, 0, 16);
    let low = be_u128(a, 16, 20);
    proof {
        lemma_pow256_values();
    }
    (high, low as u32)
}

/// Computes the key of the storage slot `k`.
pub fn slot_key_of(k: &Word) -> (key: SlotKey)
    ensures
        key == slot_key(*k),
{
    (be_u128(k, 0, 16), be_u128(k, 16, 32))
}

/// Distinct addresses have distinct account keys.
pub proof fn lemma_account_key_injective(a: [u8; 20], b: [u8; 20])
    ensures
        account_key(a) == account_key(b) ==> a == b,
{
    if account_key(a) == account_key(b) {
        lemma_pow256_values();
        lemma_be_value_bound(a@.subrange(0, 16));
        lemma_be_value_bound(b@.subrange(0, 16));
        lemma_be_value_bound(a@.subrange(16, 20));
        lemma_be_value_bound(b@.subrange(16, 20));
        lemma_be_value_injective(a@.subrange(0, 16), b@.subrange(0, 16));
        lemma_be_value_injective(a@.subrange(16, 20), b@.subrange(16, 20));
        assert forall|i: int| 0 <= i < 20 implies a[i] == b[i] by {
            if i < 16 {
                assert(a@.subrange(0, 16)[i] == b@.subrange(0, 16)[i]);
            } else {
                assert(a@.subrange(16, 20)[i - 16] == b@.subrange(16, 20)[i - 16]);
            }
        }
        assert(a =~= b);
    }
}

/// Distinct slots have distinct slot keys.
pub proof fn lemma_slot_key_injective(a: Word, b: Word)
    ensures
        slot_key(a) == slot_key(b) ==> a == b,
{
    if slot_key(a) == slot_key(b) {
        lemma_pow256_values();
        lemma_be_value_bound(a@.subrange(0, 16));
        lemma_be_value_bound(b@.subrange(0, 16));
        lemma_be_value_bound(a@.subrange(16, 32));
        lemma_be_value_bound(b@.subrange(16, 32));
        lemma_be_value_injective(a@.subrange(0, 16), b@.subrange(0, 16));
        lemma_be_value_injective(a@.subrange(16, 32), b@.subrange(16, 32));
        assert forall|i: int| 0 <= i < 32 implies a[i] == b[i] by {
            if i < 16 {
                assert(a@.subrange(0, 16)[i] == b@.subrange(0, 16)[i]);
            } else {
                assert(a@.subrange(16, 32)[i - 16] == b@.subrange(16, 32)[i - 16]);
            }
        }
        assert(a =~= b);
    }
}

} // verus!
