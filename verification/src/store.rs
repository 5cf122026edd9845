//! The top-level state store.
use std::collections::BTreeMap;

use vstd::prelude::*;

use crate::evm_state::EvmState;
use crate::keys::{account_key, account_key_of, slot_key_of, AccountKey, SlotKey};
use crate::utils::{evm_account_to_internal_address, Address};
use crate::view::WorldView;
use crate::word::{zero_word, Word};

verus! {

/// Writes every entry of `src` into `dst`, replacing what `dst` held under the
/// same key.
fn merge_words<K: Ord + Copy>(dst: &mut BTreeMap<K, Word>, src: &BTreeMap<K, Word>)
    requires
        vstd::laws_cmp::obeys_cmp::<K>(),
    ensures
        final(dst)@ == old(dst)@.union_prefer_right(src@),
{
    let ghost mut done: Set<K> = Set::empty();
    for k in it: src.keys()
        invariant
            vstd::laws_cmp::obeys_cmp::<K>(),
            it.seq().unref().to_set() == src@.dom(),
            forall|j: int| 0 <= j < it.index() ==> done.contains(*it.seq()[j]),
            forall|x: K| done.contains(x) ==> src@.contains_key(x),
            dst@ == old(dst)@.union_prefer_right(src@.restrict(done)),
    {
        assert(it.seq().unref()[it.index()] == *k);
        assert(src@.contains_key(*k));
        let v = match src.get(k) {
            Some(v) => *v,
            None => vstd::pervasive::unreached(),
        };
        let ghost before = dst@;
        dst.insert(*k, v);
        proof {
            done = done.insert(*k);
            assert(dst@ =~= old(dst)@.union_prefer_right(src@.restrict(done)));
        }
    }
    assert(src@.restrict(done) =~= src@);
}


/// Writes a clone of every code entry of `src` into `dst`, replacing what `dst`
/// held for the same account.
fn merge_code(dst: &mut BTreeMap<AccountKey, Vec<u8>>, src: &BTreeMap<AccountKey, Vec<u8>>)
    ensures
        final(dst)@.map_values(|c: Vec<u8>| c@) == old(dst)@.map_values(|c: Vec<u8>| c@).union_prefer_right(
            src@.map_values(|c: Vec<u8>| c@),
        ),
{
    let ghost mut done: Set<AccountKey> = Set::empty();
    for k in it: src.keys()
        invariant
            it.seq().unref().to_set() == src@.dom(),
            forall|j: int| 0 <= j < it.index() ==> done.contains(*it.seq()[j]),
            forall|x: AccountKey| done.contains(x) ==> src@.contains_key(x),
            dst@.map_values(|c: Vec<u8>| c@) == old(dst)@.map_values(|c: Vec<u8>| c@).union_prefer_right(
                src@.restrict(done).map_values(|c: Vec<u8>| c@),
            ),
    {
        assert(it.seq().unref()[it.index()] == *k);
        assert(src@.contains_key(*k));
        let c = match src.get(k) {
            Some(c) => c.clone(),
            None => vstd::pervasive::unreached(),
        };
        assert(c@ =~= src@[*k]@);
        let ghost prev = dst@;
        let ghost done_before = done;
        dst.insert(*k, c);
        proof {
            done = done.insert(*k);
            assert(dst@.map_values(|c: Vec<u8>| c@) =~= prev.map_values(|c: Vec<u8>| c@).insert(*k, src@[*k]@));
            assert(src@.restrict(done).map_values(|c: Vec<u8>| c@) =~= src@.restrict(done_before).map_values(
                |c: Vec<u8>| c@,
            ).insert(*k, src@[*k]@));
            assert(dst@.map_values(|c: Vec<u8>| c@) =~= old(dst)@.map_values(|c: Vec<u8>| c@).union_prefer_right(
                src@.restrict(done).map_values(|c: Vec<u8>| c@),
            ));
        }
    }
    assert(src@.restrict(done) =~= src@);
}


/// Appends a copy of each line of `src` to `dst`.
pub(crate) fn append_logs(dst: &mut Vec<String>, src: &Vec<String>)
    ensures
        final(dst)@.map_values(|l: String| l@) == old(dst)@.map_values(|l: String| l@) + src@.map_values(
            |l: String| l@,
        ),
{
    let mut i: usize = 0;
    while i < src.len()
        invariant
            i <= src.len(),
            dst@.map_values(|l: String| l@) == old(dst)@.map_values(|l: String| l@) + src@.subrange(
                0,
                i as int,
            ).map_values(|l: String| l@),
        decreases src.len() - i,
    {
        let ghost prev = dst@;
        dst.push(src[i].clone());
        assert(src@.subrange(0, i + 1).map_values(|l: String| l@) =~= src@.subrange(0, i as int).map_values(
            |l: String| l@,
        ).push(src@[i as int]@));
        assert(dst@.map_values(|l: String| l@) =~= prev.map_values(|l: String| l@).push(src@[i as int]@));
        i = i + 1;
    }
    assert(src@.subrange(0, src.len() as int) =~= src@);
}

/// The storages of a state, by contract: each a map from slot key to value.
pub type Storages = BTreeMap<AccountKey, BTreeMap<SlotKey, Word>>;

/// The view of a map of storages: each storage taken by its contents.
pub open spec fn storages_view(m: Map<AccountKey, BTreeMap<SlotKey, Word>>) -> Map<
    AccountKey,
    Map<SlotKey, Word>,
> {
    m.map_values(|s: BTreeMap<SlotKey, Word>| s@)
}

/// The view of a map of code: each piece of code taken by its bytes.
pub open spec fn code_view(m: Map<AccountKey, Vec<u8>>) -> Map<AccountKey, Seq<u8>> {
    m.map_values(|c: Vec<u8>| c@)
}

/// `BTreeMap::get_mut` on a map of storages: a mutable reference to the storage
/// held under `k`, whose final contents become what the map holds under `k`;
/// `None`, with the map unchanged, where `k` is absent.
#[verifier::external_body]
fn storages_get_mut<'a>(m: &'a mut Storages, k: &AccountKey) -> (r: Option<
    &'a mut BTreeMap<SlotKey, Word>,
>)
    ensures
        r is Some <==> old(m)@.contains_key(*k),
        r matches Some(s) ==> *s == old(m)@[*k] && final(m)@ == old(m)@.insert(*k, *final(s)),
        r is None ==> final(m)@ == old(m)@,
{
    m.get_mut(k)
}

/// A top-level EVM state: code, balances, nonces and storage of each account,
/// and the log lines written.
pub struct StateStore {
    pub code: BTreeMap<AccountKey, Vec<u8>>,
    pub balances: BTreeMap<AccountKey, Word>,
    pub nonces: BTreeMap<AccountKey, Word>,
    pub storages: Storages,
    pub logs: Vec<String>,
}

impl View for StateStore {
    type V = WorldView;

    open spec fn view(&self) -> WorldView {
        WorldView {
            code: code_view(self.code@),
            balances: self.balances@,
            nonces: self.nonces@,
            storage: storages_view(self.storages@),
            logs: self.logs@.map_values(|l: String| l@),
        }
    }
}

impl Default for StateStore {
    fn default() -> (s: StateStore)
        ensures
            s@ == WorldView::empty(),
    {
        let s = StateStore {
            code: BTreeMap::new(),
            balances: BTreeMap::new(),
            nonces: BTreeMap::new(),
            storages: BTreeMap::new(),
            logs: Vec::new(),
        };
        assert(s@.code =~= Map::empty());
        assert(s@.storage =~= Map::empty());
        assert(s@.logs =~= Seq::empty());
        s
    }
}

impl StateStore {
    /// Writes the code of each account in `other` over this store's.
    pub fn commit_code(&mut self, other: &BTreeMap<AccountKey, Vec<u8>>)
        ensures
            final(self)@ == (WorldView {
                code: old(self)@.code.union_prefer_right(code_view(other@)),
                ..old(self)@
            }),
    {
        merge_code(&mut self.code, other);
    }

    /// Writes the balance of each account in `other` over this store's.
    pub fn commit_balances(&mut self, other: &BTreeMap<AccountKey, Word>)
        ensures
            final(self)@ == (WorldView {
                balances: old(self)@.balances.union_prefer_right(other@),
                ..old(self)@
            }),
    {
        merge_words(&mut self.balances, other);
    }

    /// Writes the nonce of each account in `other` over this store's.
    pub fn commit_nonces(&mut self, other: &BTreeMap<AccountKey, Word>)
        ensures
            final(self)@ == (WorldView { nonces: old(self)@.nonces.union_prefer_right(other@), ..old(self)@ }),
    {
        merge_words(&mut self.nonces, other);
    }

    /// Merges the storage of each contract in `other` into this store's, slot
    /// by slot; a contract this store holds no storage for takes a copy of
    /// `other`'s.
    pub fn commit_storages(&mut self, other: &Storages)
        ensures
            final(self)@ == (WorldView {
                storage: old(self)@.merged_storage(storages_view(other@)),
                ..old(self)@
            }),
    {
        let ghost mut done: Set<AccountKey> = Set::empty();
        assert(old(self)@.merged_storage(storages_view(other@).restrict(done)) =~= old(self)@.storage);
        for k in it: other.keys()
            invariant
                it.seq().unref().to_set() == other@.dom(),
                forall|j: int| 0 <= j < it.index() ==> done.contains(*it.seq()[j]),
                forall|x: AccountKey| done.contains(x) ==> other@.contains_key(x),
                self@ == (WorldView {
                    storage: old(self)@.merged_storage(storages_view(other@).restrict(done)),
                    ..old(self)@
                }),
        {
            assert(it.seq().unref()[it.index()] == *k);
            assert(other@.contains_key(*k));
            let v = match other.get(k) {
                Some(v) => v,
                None => vstd::pervasive::unreached(),
            };
            let ghost prev = self@;
            let ghost done_before = done;
            match self.storages.remove(k) {
                Some(mut contract_storage) => {
                    merge_words(&mut contract_storage, v);
                    self.storages.insert(*k, contract_storage);
                    assert(self@.storage =~= prev.storage.insert(*k, prev.storage[*k].union_prefer_right(v@)));
                },
                None => {
                    self.storages.insert(*k, v.clone());
                    assert(self@.storage =~= prev.storage.insert(*k, v@));
                },
            }
            proof {
                done = done.insert(*k);
                let ov = storages_view(other@);
                let target = old(self)@.merged_storage(ov.restrict(done));
                assert(ov[*k] == v@);
                let merged = match prev.storage.get(*k) {
                    Some(m) => m.union_prefer_right(v@),
                    None => v@,
                };
                assert(self@.storage[*k] == merged);
                if done_before.contains(*k) {
                    assert(ov.restrict(done_before).contains_key(*k));
                    if old(self)@.storage.contains_key(*k) {
                        let m = old(self)@.storage[*k];
                        assert(prev.storage[*k] == m.union_prefer_right(v@));
                        assert(m.union_prefer_right(v@).union_prefer_right(v@) =~= m.union_prefer_right(v@));
                    } else {
                        assert(prev.storage[*k] == v@);
                        assert(v@.union_prefer_right(v@) =~= v@);
                    }
                } else {
                    assert(!ov.restrict(done_before).contains_key(*k));
                    if old(self)@.storage.contains_key(*k) {
                        assert(prev.storage[*k] == old(self)@.storage[*k]);
                    } else {
                        assert(!prev.storage.contains_key(*k));
                    }
                }
                assert(self@.storage[*k] =~= target[*k]);
                assert(self@.storage =~= target);
            }
        }
        assert(storages_view(other@).restrict(done) =~= storages_view(other@));
    }

    /// The storage of contract `address`, if it has one.
    pub fn contract_storage(&self, address: [u8; 20]) -> (r: Option<&BTreeMap<SlotKey, Word>>)
        ensures
            r is Some <==> self@.storage.contains_key(account_key(address)),
            r matches Some(s) ==> s@ == self@.storage[account_key(address)],
    {
        self.storages.get(&account_key_of(&address))
    }

    /// The storage of contract `address`, created empty if it has none, to be
    /// written through the reference.
    pub fn mut_contract_storage(&mut self, address: [u8; 20]) -> (r: &mut BTreeMap<SlotKey, Word>)
        ensures
            r@ == old(self)@.storage_of(address),
            final(self)@ == (WorldView {
                storage: old(self)@.storage.insert(account_key(address), final(r)@),
                ..old(self)@
            }),
    {
        let key = account_key_of(&address);
        if !self.storages.contains_key(&key) {
            self.storages.insert(key, BTreeMap::new());
        }
        let ghost mid = self.storages@;
        let r = match storages_get_mut(&mut self.storages, &key) {
            Some(s) => s,
            None => vstd::pervasive::unreached(),
        };
        proof {
            assert(storages_view(mid.insert(key, *final(r))) =~= old(self)@.storage.insert(key, final(r)@));
        }
        r
    }
}

impl EvmState for StateStore {
    /// A top-level store reads nothing but what it holds.
    open spec fn base(&self) -> WorldView {
        WorldView::empty()
    }

    open spec fn local(&self) -> WorldView {
        self@
    }

    fn code_at(&self, address: &Address) -> (r: Option<Vec<u8>>) {
        let internal_addr = evm_account_to_internal_address(*address);
        match self.code.get(&account_key_of(&internal_addr)) {
            Some(c) => Some(c.clone()),
            None => None,
        }
    }

    fn set_code(&mut self, address: &Address, bytecode: &[u8]) {
        let internal_addr = evm_account_to_internal_address(*address);
        self.code.insert(account_key_of(&internal_addr), vstd::slice::slice_to_vec(bytecode));
        assert(self@.code =~= old(self)@.code.insert(account_key(address.0), bytecode@));
    }

    fn _balance_of(&self, address: [u8; 20]) -> (r: Word) {
        let r = match self.balances.get(&account_key_of(&address)) {
            Some(b) => *b,
            None => zero_word(),
        };
        r
    }

    fn _set_balance(&mut self, address: [u8; 20], balance: Word) -> (r: Option<Word>) {
        self.balances.insert(account_key_of(&address), balance)
    }

    fn _nonce_of(&self, address: [u8; 20]) -> (r: Word) {
        let r = match self.nonces.get(&account_key_of(&address)) {
            Some(n) => *n,
            None => zero_word(),
        };
        r
    }

    fn _set_nonce(&mut self, address: [u8; 20], nonce: Word) -> (r: Option<Word>) {
        self.nonces.insert(account_key_of(&address), nonce)
    }

    fn read_contract_storage(&self, address: &Address, key: Word) -> (r: Option<Word>) {
        let internal_addr = evm_account_to_internal_address(*address);
        match self.contract_storage(internal_addr) {
            Some(s) => match s.get(&slot_key_of(&key)) {
                Some(v) => Some(*v),
                None => None,
            },
            None => None,
        }
    }

    fn set_contract_storage(&mut self, address: &Address, key: Word, value: Word) -> (r: Option<Word>) {
        let internal_addr = evm_account_to_internal_address(*address);
        let storage = self.mut_contract_storage(internal_addr);
        let r = storage.insert(slot_key_of(&key), value);
        assert(self@.storage =~= old(self)@.with_storage(address.0, key, value).storage);
        r
    }

    fn commit_changes(&mut self, other: &StateStore) {
        self.commit_code(&other.code);
        self.commit_balances(&other.balances);
        self.commit_nonces(&other.nonces);
        self.commit_storages(&other.storages);
        append_logs(&mut self.logs, &other.logs);
    }
}

} // verus!
