//! 32-byte big-endian words, the way the EVM holds balances, nonces and
//! storage values, and their numeric meaning.
use vstd::prelude::*;

verus! {

/// A 256-bit unsigned value held as 32 big-endian bytes.
pub type Word = [u8; 32];

/// `256` raised to the power `n`: the number of values that `n` bytes can hold.
pub open spec fn pow256(n: nat) -> nat
    decreases n,
{
    if n == 0 {
        1
    } else {
        256 * pow256((n - 1) as nat)
    }
}

/// The number that a sequence of bytes denotes when read big-endian.
pub open spec fn be_value(s: Seq<u8>) -> nat
    decreases s.len(),
{
    if s.len() == 0 {
        0
    } else {
        be_value(s.drop_last()) * 256 + s.last() as nat
    }
}

/// The number a word denotes.
pub open spec fn word_value(w: Word) -> nat {
    be_value(w@)
}

/// One more than the largest value a word can hold.
pub open spec fn word_bound() -> nat {
    pow256(32)
}

/// The bytes of the word zero.
pub open spec fn zero_bytes() -> Seq<u8> {
    Seq::new(32, |_i: int| 0u8)
}

/// The word zero.
pub fn zero_word() -> (w: Word)
    ensures
        w@ == zero_bytes(),
        word_value(w) == 0,
{
    let w: Word = vstd::array::array_fill_for_copy_types(0u8);
    assert(w@ =~= zero_bytes());
    proof {
        lemma_be_value_zeros(32);
    }
    w
}

/// A big-endian number of `n` bytes is below `256^n`.
pub proof fn lemma_be_value_bound(s: Seq<u8>)
    ensures
        be_value(s) < pow256(s.len()),
    decreases s.len(),
{
    if s.len() > 0 {
        lemma_be_value_bound(s.drop_last());
        let p = pow256((s.len() - 1) as nat);
        assert(be_value(s.drop_last()) * 256 + s.last() < p * 256) by (nonlinear_arith)
            requires
                be_value(s.drop_last()) < p,
                s.last() < 256,
        ;
    }
}

/// Every power of 256 is positive.
pub proof fn lemma_pow256_positive(n: nat)
    ensures
        pow256(n) > 0,
    decreases n,
{
    if n > 0 {
        lemma_pow256_positive((n - 1) as nat);
    }
}

/// Two byte sequences of one length that denote the same number are equal.
pub proof fn lemma_be_value_injective(s: Seq<u8>, t: Seq<u8>)
    requires
        s.len() == t.len(),
        be_value(s) == be_value(t),
    ensures
        s == t,
    decreases s.len(),
{
    if s.len() > 0 {
        let a = be_value(s.drop_last());
        let b = be_value(t.drop_last());
        let x = s.last() as int;
        let y = t.last() as int;
        assert(a == b && x == y) by (nonlinear_arith)
            requires
                a * 256 + x == b * 256 + y,
                0 <= x < 256,
                0 <= y < 256,
                a >= 0,
                b >= 0,
        ;
        lemma_be_value_injective(s.drop_last(), t.drop_last());
        assert(s =~= t.drop_last().push(t.last()));
        assert(t =~= t.drop_last().push(t.last()));
    }
}

/// A sequence of zero bytes denotes zero.
pub proof fn lemma_be_value_zeros(n: nat)
    ensures
        be_value(Seq::new(n, |_i: int| 0u8)) == 0,
    decreases n,
{
    if n > 0 {
        let s = Seq::new(n, |_i: int| 0u8);
        assert(s.drop_last() =~= Seq::new((n - 1) as nat, |_i: int| 0u8));
        lemma_be_value_zeros((n - 1) as nat);
    }
}

/// Two words that denote the same number are the same word.
pub proof fn lemma_word_value_injective(a: Word, b: Word)
    requires
        word_value(a) == word_value(b),
    ensures
        a == b,
{
    lemma_be_value_injective(a@, b@);
    assert(a@ =~= b@);
}

/// Adds a machine integer to a word with `ethereum_types::U256`'s `+`
/// (`impl<T: Into<U256>> Add<T> for U256`). The word goes in through
/// `From<[u8; 32]>` (big-endian) and comes out through `From<U256> for [u8; 32]`
/// (big-endian). `+` panics on overflow, which `requires` rules out; otherwise the
/// sum is exact.
#[verifier::external_body]
pub(crate) fn u256_add(a: Word, b: u64) -> (r: Word)
    requires
        word_value(a) + b < word_bound(),
    ensures
        word_value(r) == word_value(a) + b,
{
    let sum = ethereum_types::U256::from(a) + b;
    sum.into()
}

/// `ethereum_types::U256::checked_add` on two words read big-endian: `None`
/// exactly when the sum does not fit in 256 bits, else the exact sum.
#[verifier::external_body]
pub(crate) fn u256_checked_add(a: Word, b: Word) -> (r: Option<Word>)
    ensures
        r is Some <==> word_value(a) + word_value(b) < word_bound(),
        r matches Some(c) ==> word_value(c) == word_value(a) + word_value(b),
{
    match ethereum_types::U256::from(a).checked_add(ethereum_types::U256::from(b)) {
        Some(v) => Some(v.into()),
        None => None,
    }
}

/// `ethereum_types::U256::checked_sub` on two words read big-endian: `None`
/// exactly when the second is larger than the first, else the exact difference.
#[verifier::external_body]
pub(crate) fn u256_checked_sub(a: Word, b: Word) -> (r: Option<Word>)
    ensures
        r is Some <==> word_value(b) <= word_value(a),
        r matches Some(c) ==> word_value(c) == word_value(a) - word_value(b),
{
    match ethereum_types::U256::from(a).checked_sub(ethereum_types::U256::from(b)) {
        Some(v) => Some(v.into()),
        None => None,
    }
}

} // verus!
