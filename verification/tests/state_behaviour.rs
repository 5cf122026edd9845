use std::collections::BTreeMap;

use ethereum_types::U256;

use evm_state::evm_state::EvmState;
use evm_state::keys::{account_key_of, slot_key_of};
use evm_state::store::StateStore;
use evm_state::substate::SubState;
use evm_state::utils::{evm_account_to_internal_address, Address};
use evm_state::word::{zero_word, Word};

fn addr(byte: u8) -> Address {
    Address([byte; 20])
}

fn word_of(value: u64) -> Word {
    let mut bin = [0u8; 32];
    U256::from(value).to_big_endian(&mut bin);
    bin
}

fn value_of(w: Word) -> U256 {
    U256::from(w)
}

#[test]
fn fresh_store_reads_zero_and_nothing() {
    let store = StateStore::default();
    let a = addr(9);
    assert_eq!(store.code_at(&a), None);
    assert_eq!(store.balance_of(&a), [0u8; 32]);
    assert_eq!(store.nonce_of(&a), [0u8; 32]);
    assert_eq!(store.read_contract_storage(&a, [1u8; 32]), None);
    assert!(store.contract_storage(a.0).is_none());
    assert!(store.logs.is_empty());
}

#[test]
fn zero_word_is_all_zero_bytes() {
    assert_eq!(zero_word(), [0u8; 32]);
}

#[test]
fn internal_address_is_the_address_bytes() {
    let mut bytes = [0u8; 20];
    bytes[3] = 7;
    assert_eq!(evm_account_to_internal_address(Address(bytes)), bytes);
}

#[test]
fn account_key_splits_big_endian() {
    let mut bytes = [0u8; 20];
    bytes[15] = 1;
    bytes[19] = 2;
    bytes[16] = 1;
    assert_eq!(account_key_of(&bytes), (1u128, 0x0100_0002u32));
    let all = [0xffu8; 20];
    assert_eq!(account_key_of(&all), (u128::MAX, u32::MAX));
    let mut high = [0u8; 20];
    high[0] = 0x80;
    assert_eq!(account_key_of(&high), (1u128 << 127, 0u32));
}

#[test]
fn slot_key_splits_big_endian() {
    let mut bytes = [0u8; 32];
    bytes[0] = 1;
    bytes[31] = 3;
    assert_eq!(slot_key_of(&bytes), (1u128 << 120, 3u128));
    assert_ne!(slot_key_of(&[4u8; 32]), slot_key_of(&[5u8; 32]));
}

#[test]
fn set_returns_previous_value() {
    let mut store = StateStore::default();
    let a = addr(1);
    assert_eq!(store.set_balance(&a, word_of(5)), None);
    assert_eq!(store.set_balance(&a, word_of(6)), Some(word_of(5)));
    assert_eq!(store.set_nonce(&a, word_of(1)), None);
    assert_eq!(store.set_nonce(&a, word_of(2)), Some(word_of(1)));
    assert_eq!(store.set_contract_storage(&a, [1u8; 32], [2u8; 32]), None);
    assert_eq!(store.set_contract_storage(&a, [1u8; 32], [3u8; 32]), Some([2u8; 32]));
    assert_eq!(store._set_balance(a.0, word_of(7)), Some(word_of(6)));
    assert_eq!(store._balance_of(a.0), word_of(7));
    assert_eq!(store._set_nonce(a.0, word_of(8)), Some(word_of(2)));
    assert_eq!(store._nonce_of(a.0), word_of(8));
}

#[test]
fn writes_at_one_address_leave_others_alone() {
    let mut store = StateStore::default();
    let a = addr(1);
    let b = addr(2);
    store.set_code(&b, &[9, 9]);
    store.set_balance(&b, word_of(40));
    store.set_contract_storage(&b, [1u8; 32], [8u8; 32]);
    store.set_code(&a, &[1]);
    store.set_balance(&a, word_of(1));
    store.set_nonce(&a, word_of(1));
    store.set_contract_storage(&a, [1u8; 32], [2u8; 32]);
    assert_eq!(store.code_at(&b), Some(vec![9, 9]));
    assert_eq!(store.balance_of(&b), word_of(40));
    assert_eq!(store.nonce_of(&b), [0u8; 32]);
    assert_eq!(store.read_contract_storage(&b, [1u8; 32]), Some([8u8; 32]));
    assert_eq!(store.code_at(&a), Some(vec![1]));
}

#[test]
fn next_nonce_returns_old_and_increments() {
    let mut store = StateStore::default();
    let a = addr(3);
    assert_eq!(store.next_nonce(&a), [0u8; 32]);
    assert_eq!(store.nonce_of(&a), word_of(1));
    store.set_nonce(&a, word_of(255));
    assert_eq!(store.next_nonce(&a), word_of(255));
    let mut expected = [0u8; 32];
    expected[30] = 1;
    assert_eq!(store.nonce_of(&a), expected);
    assert_eq!(value_of(store.nonce_of(&a)), U256::from(256u64));
}

#[test]
fn add_and_sub_balance_are_exact() {
    let mut store = StateStore::default();
    let a = addr(4);
    store.set_balance(&a, word_of(3838209));
    assert_eq!(store.add_balance(&a, word_of(1000)), Some(word_of(3838209)));
    assert_eq!(store.balance_of(&a), word_of(3839209));
    assert_eq!(store.sub_balance(&a, word_of(9209)), Some(word_of(3839209)));
    assert_eq!(store.balance_of(&a), word_of(3830000));
    let fresh = addr(5);
    assert_eq!(store.add_balance(&fresh, word_of(12)), None);
    assert_eq!(store.balance_of(&fresh), word_of(12));
    let mut big = [0u8; 32];
    big[0] = 0x7f;
    store.set_balance(&fresh, big);
    store.add_balance(&fresh, big);
    assert_eq!(value_of(store.balance_of(&fresh)), value_of(big) + value_of(big));
}

#[test]
fn add_then_sub_restores_balance() {
    let mut store = StateStore::default();
    let a = addr(6);
    store.set_balance(&a, word_of(77));
    store.add_balance(&a, word_of(23));
    store.sub_balance(&a, word_of(23));
    assert_eq!(store.balance_of(&a), word_of(77));
}

#[test]
fn transfer_moves_amount_and_conserves_total() {
    let mut store = StateStore::default();
    let s = addr(7);
    let r = addr(8);
    store.set_balance(&s, word_of(100));
    store.set_balance(&r, word_of(5));
    store.transfer_balance(&s, &r, word_of(30));
    assert_eq!(store.balance_of(&s), word_of(70));
    assert_eq!(store.balance_of(&r), word_of(35));
    store.transfer_balance(&s, &s, word_of(70));
    assert_eq!(store.balance_of(&s), word_of(70));
    store.transfer_balance(&s, &r, word_of(70));
    assert_eq!(store.balance_of(&s), [0u8; 32]);
    assert_eq!(store.balance_of(&r), word_of(105));
}

#[test]
fn mut_contract_storage_creates_empty_storage() {
    let mut store = StateStore::default();
    let a = addr(1);
    assert!(store.contract_storage(a.0).is_none());
    assert!(store.mut_contract_storage(a.0).is_empty());
    assert_eq!(store.contract_storage(a.0).map(|s| s.len()), Some(0));
    store.mut_contract_storage(a.0).insert(slot_key_of(&[1u8; 32]), [5u8; 32]);
    assert_eq!(store.read_contract_storage(&a, [1u8; 32]), Some([5u8; 32]));
    assert_eq!(store.read_contract_storage(&a, [2u8; 32]), None);
}

#[test]
fn substate_reads_through_and_writes_locally() {
    let mut top = StateStore::default();
    let a = addr(1);
    top.set_balance(&a, word_of(50));
    top.set_nonce(&a, word_of(4));
    top.set_code(&a, &[1, 2]);
    let mut layer = StateStore::default();
    {
        let mut sub = SubState::new(&a, &mut layer, &top);
        assert_eq!(sub.balance_of(&a), word_of(50));
        assert_eq!(sub._nonce_of(a.0), word_of(4));
        // the previous value returned is the layer's own, not the parent's
        assert_eq!(sub.set_balance(&a, word_of(60)), None);
        assert_eq!(sub.balance_of(&a), word_of(60));
        assert_eq!(sub.add_balance(&a, word_of(1)), Some(word_of(60)));
        assert_eq!(sub.next_nonce(&a), word_of(4));
        assert_eq!(sub.nonce_of(&a), word_of(5));
        assert!(sub.contract_storage(a.0).is_none());
        assert!(sub.mut_contract_storage(a.0).is_empty());
        assert!(sub.contract_storage(a.0).is_some());
    }
    assert_eq!(top.balance_of(&a), word_of(50));
    assert_eq!(top.nonce_of(&a), word_of(4));
    assert_eq!(layer.balance_of(&a), word_of(61));
    assert_eq!(layer.nonce_of(&a), word_of(5));
    assert_eq!(layer.code_at(&a), None);
}

#[test]
fn substate_storage_of_its_own_hides_parent_slots() {
    let mut top = StateStore::default();
    let a = addr(1);
    top.set_contract_storage(&a, [1u8; 32], [10u8; 32]);
    top.set_contract_storage(&a, [2u8; 32], [20u8; 32]);
    let mut layer = StateStore::default();
    let mut sub = SubState::new(&a, &mut layer, &top);
    assert_eq!(sub.read_contract_storage(&a, [2u8; 32]), Some([20u8; 32]));
    assert_eq!(sub.set_contract_storage(&a, [1u8; 32], [11u8; 32]), None);
    assert_eq!(sub.read_contract_storage(&a, [1u8; 32]), Some([11u8; 32]));
    // the layer now holds a storage for `a`, which hides the parent's slot
    assert_eq!(sub.read_contract_storage(&a, [2u8; 32]), None);
}

#[test]
fn commit_merges_storage_slot_by_slot() {
    let mut top = StateStore::default();
    let a = addr(1);
    top.set_contract_storage(&a, [1u8; 32], [10u8; 32]);
    top.set_contract_storage(&a, [2u8; 32], [20u8; 32]);
    let mut layer = StateStore::default();
    layer.set_contract_storage(&a, [1u8; 32], [11u8; 32]);
    layer.set_contract_storage(&addr(2), [3u8; 32], [30u8; 32]);
    top.commit_changes(&layer);
    assert_eq!(top.read_contract_storage(&a, [1u8; 32]), Some([11u8; 32]));
    assert_eq!(top.read_contract_storage(&a, [2u8; 32]), Some([20u8; 32]));
    assert_eq!(top.read_contract_storage(&addr(2), [3u8; 32]), Some([30u8; 32]));
}

#[test]
fn commit_replaces_code_balances_nonces_and_appends_logs() {
    let mut top = StateStore::default();
    let a = addr(1);
    let b = addr(2);
    top.set_code(&a, &[1]);
    top.set_balance(&a, word_of(1));
    top.set_nonce(&b, word_of(9));
    top.logs.push(String::from("first"));
    let mut other = StateStore::default();
    other.set_code(&a, &[2, 2]);
    other.set_balance(&b, word_of(3));
    other.set_nonce(&b, word_of(10));
    other.logs.push(String::from("second"));
    other.logs.push(String::from("third"));
    top.commit_changes(&other);
    assert_eq!(top.code_at(&a), Some(vec![2, 2]));
    assert_eq!(top.balance_of(&a), word_of(1));
    assert_eq!(top.balance_of(&b), word_of(3));
    assert_eq!(top.nonce_of(&b), word_of(10));
    assert_eq!(top.logs, vec![String::from("first"), String::from("second"), String::from("third")]);
}

#[test]
fn commit_into_substate_goes_to_its_layer() {
    let top = StateStore::default();
    let a = addr(1);
    let mut layer = StateStore::default();
    let mut other = StateStore::default();
    other.set_balance(&a, word_of(8));
    other.logs.push(String::from("log"));
    {
        let mut sub = SubState::new(&a, &mut layer, &top);
        sub.commit_changes(&other);
        assert_eq!(sub.balance_of(&a), word_of(8));
    }
    assert_eq!(layer.balance_of(&a), word_of(8));
    assert_eq!(layer.logs, vec![String::from("log")]);
    assert_eq!(top.balance_of(&a), [0u8; 32]);
}

#[test]
fn commit_parts_directly() {
    let mut store = StateStore::default();
    let k = account_key_of(&[1u8; 20]);
    let mut code = BTreeMap::new();
    code.insert(k, vec![5u8]);
    store.commit_code(&code);
    let mut balances = BTreeMap::new();
    balances.insert(k, word_of(2));
    store.commit_balances(&balances);
    let mut nonces = BTreeMap::new();
    nonces.insert(k, word_of(3));
    store.commit_nonces(&nonces);
    let mut slots = BTreeMap::new();
    slots.insert(slot_key_of(&[0u8; 32]), [1u8; 32]);
    let mut storages = BTreeMap::new();
    storages.insert(k, slots);
    store.commit_storages(&storages);
    let a = addr(1);
    assert_eq!(store.code_at(&a), Some(vec![5u8]));
    assert_eq!(store.balance_of(&a), word_of(2));
    assert_eq!(store.nonce_of(&a), word_of(3));
    assert_eq!(store.read_contract_storage(&a, [0u8; 32]), Some([1u8; 32]));
}

#[test]
fn commit_gives_parent_what_substate_showed() {
    let mut top = StateStore::default();
    let a = addr(1);
    let b = addr(2);
    top.set_balance(&a, word_of(100));
    top.set_contract_storage(&a, [1u8; 32], [10u8; 32]);
    let mut next = StateStore::default();
    let shown = {
        let mut sub = SubState::new(&a, &mut next, &top);
        sub.set_contract_storage(&b, [3u8; 32], [30u8; 32]);
        sub.transfer_balance(&a, &b, word_of(40));
        sub.next_nonce(&a);
        sub.add_balance(&b, word_of(2));
        sub.sub_balance(&a, word_of(1));
        (
            sub.balance_of(&a),
            sub.balance_of(&b),
            sub.nonce_of(&a),
            sub.read_contract_storage(&a, [1u8; 32]),
            sub.read_contract_storage(&b, [3u8; 32]),
        )
    };
    top.commit_changes(&next);
    assert_eq!(shown, (word_of(59), word_of(42), word_of(1), Some([10u8; 32]), Some([30u8; 32])));
    assert_eq!(top.balance_of(&a), shown.0);
    assert_eq!(top.balance_of(&b), shown.1);
    assert_eq!(top.nonce_of(&a), shown.2);
    assert_eq!(top.read_contract_storage(&a, [1u8; 32]), shown.3);
    assert_eq!(top.read_contract_storage(&b, [3u8; 32]), shown.4);
}
