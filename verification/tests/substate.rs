use ethereum_types::U256;

use evm_state::evm_state::EvmState;
use evm_state::store::StateStore;
use evm_state::substate::SubState;
use evm_state::utils::Address;
use evm_state::word::Word;

fn address(byte: u8) -> Address {
    Address(ethereum_types::Address::repeat_byte(byte).0)
}

fn word(value: U256) -> Word {
    let mut bin = [0u8; 32];
    value.to_big_endian(&mut bin);
    bin
}

#[test]
fn substate_tests() {
    let addr_0 = address(0);
    let addr_1 = address(1);
    let addr_2 = address(2);
    let zero = word(U256::zero());
    let code: [u8; 3] = [0, 1, 2];
    let nonce = word(U256::from_dec_str("103030303").unwrap());
    let balance = word(U256::from_dec_str("3838209").unwrap());
    let storage_key_0 = [4u8; 32];
    let storage_key_1 = [5u8; 32];
    let storage_value_0 = [6u8; 32];
    let storage_value_1 = [7u8; 32];

    // Create the top-level store
    let mut top = StateStore::default();

    top.set_code(&addr_0, &code);
    assert_eq!(top.code_at(&addr_0), Some(code.to_vec()));
    assert_eq!(top.code_at(&addr_1), None);
    assert_eq!(top.code_at(&addr_2), None);

    top.set_nonce(&addr_0, nonce);
    assert_eq!(top.nonce_of(&addr_0), nonce);
    assert_eq!(top.nonce_of(&addr_1), zero);
    assert_eq!(top.nonce_of(&addr_2), zero);

    top.set_balance(&addr_0, balance);
    assert_eq!(top.balance_of(&addr_0), balance);
    assert_eq!(top.balance_of(&addr_1), zero);
    assert_eq!(top.balance_of(&addr_2), zero);

    top.set_contract_storage(&addr_0, storage_key_0, storage_value_0);
    assert_eq!(top.read_contract_storage(&addr_0, storage_key_0), Some(storage_value_0));
    assert_eq!(top.read_contract_storage(&addr_1, storage_key_0), None);
    assert_eq!(top.read_contract_storage(&addr_2, storage_key_0), None);

    let next = {
        // Open a new store
        let mut next = StateStore::default();
        let mut sub1 = SubState::new(&addr_0, &mut next, &top);

        sub1.set_code(&addr_1, &code);
        assert_eq!(sub1.code_at(&addr_0), Some(code.to_vec()));
        assert_eq!(sub1.code_at(&addr_1), Some(code.to_vec()));
        assert_eq!(sub1.code_at(&addr_2), None);

        sub1.set_nonce(&addr_1, nonce);
        assert_eq!(sub1.nonce_of(&addr_0), nonce);
        assert_eq!(sub1.nonce_of(&addr_1), nonce);
        assert_eq!(sub1.nonce_of(&addr_2), zero);

        sub1.set_balance(&addr_1, balance);
        assert_eq!(sub1.balance_of(&addr_0), balance);
        assert_eq!(sub1.balance_of(&addr_1), balance);
        assert_eq!(sub1.balance_of(&addr_2), zero);

        sub1.set_contract_storage(&addr_1, storage_key_0, storage_value_0);
        assert_eq!(sub1.read_contract_storage(&addr_0, storage_key_0), Some(storage_value_0));
        assert_eq!(sub1.read_contract_storage(&addr_1, storage_key_0), Some(storage_value_0));
        assert_eq!(sub1.read_contract_storage(&addr_2, storage_key_0), None);

        sub1.set_contract_storage(&addr_1, storage_key_0, storage_value_1);
        assert_eq!(sub1.read_contract_storage(&addr_0, storage_key_0), Some(storage_value_0));
        assert_eq!(sub1.read_contract_storage(&addr_1, storage_key_0), Some(storage_value_1));
        assert_eq!(sub1.read_contract_storage(&addr_2, storage_key_0), None);

        sub1.set_contract_storage(&addr_1, storage_key_1, storage_value_1);
        assert_eq!(sub1.read_contract_storage(&addr_1, storage_key_0), Some(storage_value_1));
        assert_eq!(sub1.read_contract_storage(&addr_1, storage_key_1), Some(storage_value_1));

        sub1.set_contract_storage(&addr_1, storage_key_0, storage_value_0);
        assert_eq!(sub1.read_contract_storage(&addr_1, storage_key_0), Some(storage_value_0));
        assert_eq!(sub1.read_contract_storage(&addr_1, storage_key_1), Some(storage_value_1));

        next
    };

    top.commit_changes(&next);
    assert_eq!(top.code_at(&addr_0), Some(code.to_vec()));
    assert_eq!(top.code_at(&addr_1), Some(code.to_vec()));
    assert_eq!(top.code_at(&addr_2), None);
    assert_eq!(top.nonce_of(&addr_0), nonce);
    assert_eq!(top.nonce_of(&addr_1), nonce);
    assert_eq!(top.nonce_of(&addr_2), zero);
    assert_eq!(top.balance_of(&addr_0), balance);
    assert_eq!(top.balance_of(&addr_1), balance);
    assert_eq!(top.balance_of(&addr_2), zero);
    assert_eq!(top.read_contract_storage(&addr_0, storage_key_0), Some(storage_value_0));
    assert_eq!(top.read_contract_storage(&addr_1, storage_key_0), Some(storage_value_0));
    assert_eq!(top.read_contract_storage(&addr_1, storage_key_1), Some(storage_value_1));
    assert_eq!(top.read_contract_storage(&addr_2, storage_key_0), None);
}
