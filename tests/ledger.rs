use rollup_core::account::{AccountId, AccountInformation, AccountSecretKey};
use rollup_core::amount::Amount;
use rollup_core::ledger::{Parameters, State};
use rollup_core::rollup::{apply_step, batch_is_valid};
use rollup_core::transaction::{message, Transaction};

fn balance(state: &State, id: AccountId) -> Amount {
    state.account_info(id).unwrap().balance
}

fn alice_and_bob(
    rng: &mut ark_std::rand::rngs::StdRng,
    pp: &Parameters,
    alice_balance: u64,
) -> (State, AccountId, AccountSecretKey, AccountId, AccountSecretKey) {
    let mut state = State::new(32, pp);
    let (alice_id, _alice_pk, alice_sk) = state.sample_keys_and_register(pp, rng).unwrap();
    state
        .update_balance(alice_id, Amount(alice_balance))
        .expect("Alice's account should exist");
    let (bob_id, _bob_pk, bob_sk) = state.sample_keys_and_register(pp, rng).unwrap();
    (state, alice_id, alice_sk, bob_id, bob_sk)
}

#[test]
fn ledger_end_to_end() {
    let mut rng = ark_std::test_rng();
    let pp = Parameters::sample();
    let mut state = State::new(32, &pp);
    // Let's make an account for Alice.
    let (alice_id, _alice_pk, alice_sk) = state.sample_keys_and_register(&pp, &mut rng).unwrap();
    // Let's give her some initial balance to start with.
    state
        .update_balance(alice_id, Amount(10))
        .expect("Alice's account should exist");
    // Let's make an account for Bob.
    let (bob_id, _bob_pk, bob_sk) = state.sample_keys_and_register(&pp, &mut rng).unwrap();

    // Alice wants to transfer 5 units to Bob.
    let tx1 = Transaction::create(&pp, alice_id, bob_id, Amount(5), &alice_sk, &mut rng).unwrap();
    assert!(tx1.validate(&pp, &state));
    state.apply_transaction(&pp, &tx1).expect("should work");
    // A transaction where the amount is larger than Alice's balance.
    let bad_tx = Transaction::create(&pp, alice_id, bob_id, Amount(6), &alice_sk, &mut rng).unwrap();
    assert!(!bad_tx.validate(&pp, &state));
    assert!(matches!(state.apply_transaction(&pp, &bad_tx), None));
    // A transaction where the signature is incorrect.
    let bad_tx = Transaction::create(&pp, alice_id, bob_id, Amount(5), &bob_sk, &mut rng).unwrap();
    assert!(!bad_tx.validate(&pp, &state));
    assert!(matches!(state.apply_transaction(&pp, &bad_tx), None));
    // A transaction to a non-existent account.
    let bad_tx =
        Transaction::create(&pp, alice_id, AccountId(10), Amount(5), &alice_sk, &mut rng).unwrap();
    assert!(!bad_tx.validate(&pp, &state));
    assert!(matches!(state.apply_transaction(&pp, &bad_tx), None));
}

#[test]
fn single_transfer_moves_five() {
    let mut rng = ark_std::test_rng();
    let pp = Parameters::sample();
    let (mut state, alice, alice_sk, bob, _) = alice_and_bob(&mut rng, &pp, 20);
    let tx = Transaction::create(&pp, alice, bob, Amount(5), &alice_sk, &mut rng).unwrap();
    assert!(tx.validate(&pp, &state));
    assert_eq!(state.apply_transaction(&pp, &tx), Some(()));
    assert_eq!(balance(&state, alice), Amount(15));
    assert_eq!(balance(&state, bob), Amount(5));
}

#[test]
fn two_transfers_chain() {
    let mut rng = ark_std::test_rng();
    let pp = Parameters::sample();
    let (mut state, alice, alice_sk, bob, _) = alice_and_bob(&mut rng, &pp, 20);
    let tx = Transaction::create(&pp, alice, bob, Amount(5), &alice_sk, &mut rng).unwrap();
    let batch = vec![tx.clone(), tx.clone()];
    assert!(batch_is_valid(&pp, &state, &batch));
    for t in &batch {
        let w = apply_step(&mut state, &pp, t, true).unwrap();
        assert_eq!(w.sender_pre_info.public_key.bytes.len(), 64);
    }
    assert_eq!(balance(&state, alice), Amount(10));
    assert_eq!(balance(&state, bob), Amount(10));
}

#[test]
fn step_records_pre_state() {
    let mut rng = ark_std::test_rng();
    let pp = Parameters::sample();
    let (mut state, alice, alice_sk, bob, _) = alice_and_bob(&mut rng, &pp, 20);
    let tx = Transaction::create(&pp, alice, bob, Amount(5), &alice_sk, &mut rng).unwrap();
    let w = apply_step(&mut state, &pp, &tx, true).unwrap();
    assert_eq!(w.sender_pre_info.balance, Amount(20));
    assert_eq!(w.recipient_pre_info.balance, Amount(0));
    assert_eq!(balance(&state, alice), Amount(15));
}

#[test]
fn insufficient_funds_rejected() {
    let mut rng = ark_std::test_rng();
    let pp = Parameters::sample();
    let (mut state, alice, alice_sk, bob, _) = alice_and_bob(&mut rng, &pp, 20);
    let tx = Transaction::create(&pp, alice, bob, Amount(21), &alice_sk, &mut rng).unwrap();
    assert!(!tx.validate(&pp, &state));
    assert!(!batch_is_valid(&pp, &state, &[tx.clone()]));
    let mut strict = state.clone();
    assert!(apply_step(&mut strict, &pp, &tx, true).is_none());
    // Permissive mode records the step and leaves the ledger as it was.
    let w = apply_step(&mut state, &pp, &tx, false).unwrap();
    assert_eq!(w.sender_pre_info.balance, Amount(20));
    assert_eq!(balance(&state, alice), Amount(20));
    assert_eq!(balance(&state, bob), Amount(0));
}

#[test]
fn forged_signature_rejected() {
    let mut rng = ark_std::test_rng();
    let pp = Parameters::sample();
    let (mut state, alice, _, bob, bob_sk) = alice_and_bob(&mut rng, &pp, 20);
    let tx = Transaction::create(&pp, alice, bob, Amount(5), &bob_sk, &mut rng).unwrap();
    assert!(!tx.validate(&pp, &state));
    assert_eq!(state.apply_transaction(&pp, &tx), None);
    assert_eq!(balance(&state, alice), Amount(20));
}

#[test]
fn unknown_recipient_rejected() {
    let mut rng = ark_std::test_rng();
    let pp = Parameters::sample();
    let (mut state, alice, alice_sk, _, _) = alice_and_bob(&mut rng, &pp, 20);
    let tx = Transaction::create(&pp, alice, AccountId(10), Amount(5), &alice_sk, &mut rng).unwrap();
    assert!(!tx.validate(&pp, &state));
    assert_eq!(state.apply_transaction(&pp, &tx), None);
    assert!(apply_step(&mut state, &pp, &tx, false).is_none());
}

#[test]
fn zero_amount_is_valid_and_neutral() {
    let mut rng = ark_std::test_rng();
    let pp = Parameters::sample();
    let (mut state, alice, alice_sk, bob, _) = alice_and_bob(&mut rng, &pp, 20);
    let tx = Transaction::create(&pp, alice, bob, Amount(0), &alice_sk, &mut rng).unwrap();
    assert!(tx.validate(&pp, &state));
    assert_eq!(state.apply_transaction(&pp, &tx), Some(()));
    assert_eq!(balance(&state, alice), Amount(20));
    assert_eq!(balance(&state, bob), Amount(0));
}

#[test]
fn whole_balance_empties_sender() {
    let mut rng = ark_std::test_rng();
    let pp = Parameters::sample();
    let (mut state, alice, alice_sk, bob, _) = alice_and_bob(&mut rng, &pp, 20);
    let tx = Transaction::create(&pp, alice, bob, Amount(20), &alice_sk, &mut rng).unwrap();
    assert_eq!(state.apply_transaction(&pp, &tx), Some(()));
    assert_eq!(balance(&state, alice), Amount(0));
    assert_eq!(balance(&state, bob), Amount(20));
}

#[test]
fn one_more_than_balance_rejected() {
    let mut rng = ark_std::test_rng();
    let pp = Parameters::sample();
    let (mut state, alice, alice_sk, bob, _) = alice_and_bob(&mut rng, &pp, 20);
    let tx = Transaction::create(&pp, alice, bob, Amount(21), &alice_sk, &mut rng).unwrap();
    assert_eq!(state.apply_transaction(&pp, &tx), None);
}

#[test]
fn recipient_overflow_rejected() {
    let mut rng = ark_std::test_rng();
    let pp = Parameters::sample();
    let (mut state, alice, alice_sk, bob, _) = alice_and_bob(&mut rng, &pp, 20);
    state.update_balance(bob, Amount(u64::MAX)).unwrap();
    let tx = Transaction::create(&pp, alice, bob, Amount(1), &alice_sk, &mut rng).unwrap();
    assert!(tx.validate(&pp, &state));
    assert_eq!(state.apply_transaction(&pp, &tx), None);
    assert_eq!(balance(&state, alice), Amount(20));
    assert_eq!(balance(&state, bob), Amount(u64::MAX));
}

#[test]
fn capacity_thirty_two_gives_sixteen_leaves() {
    let mut rng = ark_std::test_rng();
    let pp = Parameters::sample();
    let mut state = State::new(32, &pp);
    assert_eq!(state.num_leaves(), 16);
    assert_eq!(state.next_available_account(), Some(AccountId(1)));
    for expected in 1..16u8 {
        let (id, _, _) = state.sample_keys_and_register(&pp, &mut rng).unwrap();
        assert_eq!(id, AccountId(expected));
    }
    assert_eq!(state.next_available_account(), None);
    assert!(state.sample_keys_and_register(&pp, &mut rng).is_none());
    assert_eq!(state.num_accounts(), 15);
}

#[test]
fn update_balance_of_unknown_account_fails() {
    let pp = Parameters::sample();
    let mut state = State::new(8, &pp);
    assert_eq!(state.update_balance(AccountId(1), Amount(3)), None);
    assert_eq!(state.update_balance(AccountId(0), Amount(3)), None);
}

#[test]
fn leaves_follow_records() {
    let mut rng = ark_std::test_rng();
    let pp = Parameters::sample();
    let (state, alice, _, _, _) = alice_and_bob(&mut rng, &pp, 20);
    let info = state.account_info(alice).unwrap();
    assert_eq!(state.leaf_bytes(alice.0 as usize), info.to_bytes_le());
    assert_eq!(state.leaf_bytes(0), vec![0u8; 72]);
    assert_eq!(state.leaf_bytes(5), vec![0u8; 72]);
    let leaf = state.leaf_bytes(alice.0 as usize);
    assert_eq!(&leaf[64..], &[20, 0, 0, 0, 0, 0, 0, 0]);
}

#[test]
fn id_of_finds_registered_key() {
    let mut rng = ark_std::test_rng();
    let pp = Parameters::sample();
    let (state, alice, alice_sk, bob, bob_sk) = alice_and_bob(&mut rng, &pp, 20);
    assert_eq!(state.id_of(&alice_sk.public_key), Some(alice));
    assert_eq!(state.id_of(&bob_sk.public_key), Some(bob));
    let mut other = alice_sk.public_key.clone();
    other.bytes[0] ^= 1;
    assert_eq!(state.id_of(&other), None);
}

#[test]
fn signed_message_layout() {
    let m = message(AccountId(1), AccountId(2), Amount(0x0102));
    assert_eq!(m, vec![1, 2, 0x02, 0x01, 0, 0, 0, 0, 0, 0]);
}

#[test]
fn account_information_round_trip() {
    let info = AccountInformation {
        public_key: rollup_core::signature::PublicKey { bytes: (0..64u8).collect() },
        balance: Amount(0x1122334455667788),
    };
    let bytes = info.to_bytes_le();
    assert_eq!(bytes.len(), 72);
    assert_eq!(&bytes[64..], &[0x88, 0x77, 0x66, 0x55, 0x44, 0x33, 0x22, 0x11]);
    let back = AccountInformation::from_bytes_le(&bytes).unwrap();
    assert_eq!(back.public_key.bytes, info.public_key.bytes);
    assert_eq!(back.balance, info.balance);
    assert!(AccountInformation::from_bytes_le(&bytes[..71]).is_none());
}

#[test]
fn register_writes_its_leaf() {
    let mut rng = ark_std::test_rng();
    let pp = Parameters::sample();
    let mut state = State::new(8, &pp);
    assert_eq!(state.num_leaves(), 4);
    let before: Vec<Vec<u8>> = (0..4).map(|i| state.leaf_bytes(i)).collect();
    let (id, pk, _) = state.sample_keys_and_register(&pp, &mut rng).unwrap();
    assert_eq!(id, AccountId(1));
    let mut expected = pk.bytes.clone();
    expected.extend_from_slice(&[0; 8]);
    assert_eq!(state.leaf_bytes(1), expected);
    assert_eq!(state.leaf_bytes(0), before[0]);
    assert_eq!(state.leaf_bytes(2), before[2]);
    state.update_balance(id, Amount(258)).unwrap();
    assert_eq!(&state.leaf_bytes(1)[64..], &[2, 1, 0, 0, 0, 0, 0, 0]);
}

#[test]
fn create_with_fixed_nonce_validates() {
    let mut rng = ark_std::test_rng();
    let pp = Parameters::sample();
    let (state, alice, alice_sk, bob, _) = alice_and_bob(&mut rng, &pp, 20);
    let mut nonce = vec![0u8; 32];
    nonce[0] = 5;
    let tx = Transaction::create_with_nonce(&pp, alice, bob, Amount(3), &alice_sk, &nonce).unwrap();
    assert!(tx.validate(&pp, &state));
    let mut tampered = tx.clone();
    tampered.amount = Amount(4);
    assert!(!tampered.validate(&pp, &state));
}

#[test]
fn self_transfer_keeps_balance() {
    let mut rng = ark_std::test_rng();
    let pp = Parameters::sample();
    let (mut state, alice, alice_sk, bob, _) = alice_and_bob(&mut rng, &pp, 20);
    let tx = Transaction::create(&pp, alice, alice, Amount(7), &alice_sk, &mut rng).unwrap();
    assert!(tx.validate(&pp, &state));
    assert_eq!(state.apply_transaction(&pp, &tx), Some(()));
    assert_eq!(balance(&state, alice), Amount(20));
    assert_eq!(balance(&state, bob), Amount(0));
}

#[test]
fn self_transfer_at_maximum_balance_applies() {
    let mut rng = ark_std::test_rng();
    let pp = Parameters::sample();
    let (mut state, alice, alice_sk, _, _) = alice_and_bob(&mut rng, &pp, u64::MAX);
    let tx = Transaction::create(&pp, alice, alice, Amount(1), &alice_sk, &mut rng).unwrap();
    assert_eq!(state.apply_transaction(&pp, &tx), Some(()));
    assert_eq!(balance(&state, alice), Amount(u64::MAX));
}
