use rollup_core::account::AccountId;
use rollup_core::amount::Amount;
use rollup_core::ledger::{Parameters, State};
use rollup_core::rollup::build_batch;
use rollup_core::transaction::Transaction;

fn all_leaves(state: &State) -> Vec<Vec<u8>> {
    (0..state.num_leaves()).map(|i| state.leaf_bytes(i)).collect()
}

fn setup() -> (ark_std::rand::rngs::StdRng, Parameters, State, Vec<Transaction>, AccountId, AccountId) {
    let mut rng = ark_std::test_rng();
    let pp = Parameters::sample();
    let mut state = State::new(32, &pp);
    let (alice, _, alice_sk) = state.sample_keys_and_register(&pp, &mut rng).unwrap();
    state.update_balance(alice, Amount(20)).unwrap();
    let (bob, _, _) = state.sample_keys_and_register(&pp, &mut rng).unwrap();
    let tx = Transaction::create(&pp, alice, bob, Amount(5), &alice_sk, &mut rng).unwrap();
    (rng, pp, state, vec![tx.clone(), tx], alice, bob)
}

fn run(
    state: &mut State,
    pp: &Parameters,
    txs: &[Transaction],
    validate: bool,
) -> (Option<rollup_core::rollup::BatchWitness<Vec<Vec<u8>>, usize>>, Vec<Vec<u8>>) {
    let tree = all_leaves(state);
    build_batch(
        state,
        pp,
        txs,
        validate,
        tree,
        |t: &Vec<Vec<u8>>| t.clone(),
        |_t: &Vec<Vec<u8>>, i: usize| i,
        |mut t: Vec<Vec<u8>>, i: usize, leaf: Vec<u8>| {
            t[i] = leaf;
            t
        },
    )
}

#[test]
fn batch_roots_chain_and_track_the_ledger() {
    let (_rng, pp, mut state, txs, alice, bob) = setup();
    let start = all_leaves(&state);
    let (w, tree) = run(&mut state, &pp, &txs, true);
    let w = w.unwrap();
    assert_eq!(w.roots.len(), 3);
    assert_eq!(w.roots[0], start);
    assert_eq!(w.roots[2], all_leaves(&state));
    assert_eq!(tree, all_leaves(&state));
    assert_eq!(w.steps.len(), 2);
    assert_eq!(w.steps[0].sender_pre_info.balance, Amount(20));
    assert_eq!(w.steps[1].sender_pre_info.balance, Amount(15));
    assert_eq!(w.steps[1].recipient_pre_info.balance, Amount(5));
    assert_eq!(w.sender_pre_paths, vec![alice.0 as usize; 2]);
    assert_eq!(w.recipient_post_paths, vec![bob.0 as usize; 2]);
    assert_eq!(state.account_info(alice).unwrap().balance, Amount(10));
    assert_eq!(state.account_info(bob).unwrap().balance, Amount(10));
    assert_ne!(w.roots[1], w.roots[0]);
    assert_ne!(w.roots[2], w.roots[1]);
}

#[test]
fn strict_batch_refuses_invalid_transaction() {
    let (mut rng, pp, mut state, _, alice, bob) = setup();
    let bob_sk = state.sample_keys_and_register(&pp, &mut rng).unwrap().2;
    let forged = Transaction::create(&pp, alice, bob, Amount(5), &bob_sk, &mut rng).unwrap();
    let before = all_leaves(&state);
    let (w, tree) = run(&mut state, &pp, &[forged.clone()], true);
    assert!(w.is_none());
    assert_eq!(all_leaves(&state), before);
    assert_eq!(tree, before);
    // Permissive mode records the step; the ledger does not move.
    let (w, _) = run(&mut state, &pp, &[forged], false);
    let w = w.unwrap();
    assert_eq!(w.roots[0], w.roots[1]);
    assert_eq!(state.account_info(alice).unwrap().balance, Amount(20));
}

#[test]
fn batch_with_unknown_recipient_fails_in_both_modes() {
    let (mut rng, pp, mut state, _, alice, _) = setup();
    let (_, _, sk) = state.sample_keys_and_register(&pp, &mut rng).unwrap();
    let tx = Transaction::create(&pp, AccountId(3), AccountId(10), Amount(0), &sk, &mut rng).unwrap();
    assert!(run(&mut state, &pp, &[tx.clone()], false).0.is_none());
    assert!(run(&mut state, &pp, &[tx], true).0.is_none());
    assert_eq!(state.account_info(alice).unwrap().balance, Amount(20));
}

#[test]
fn batch_tree_is_rewritten_sender_then_recipient() {
    let (_rng, pp, mut state, txs, alice, bob) = setup();
    let tree: Vec<(usize, Vec<u8>)> = Vec::new();
    let (w, log) = build_batch(
        &mut state,
        &pp,
        &txs[..1],
        true,
        tree,
        |t: &Vec<(usize, Vec<u8>)>| t.len(),
        |t: &Vec<(usize, Vec<u8>)>, i: usize| (t.len(), i),
        |mut t: Vec<(usize, Vec<u8>)>, i: usize, leaf: Vec<u8>| {
            t.push((i, leaf));
            t
        },
    );
    let w = w.unwrap();
    assert_eq!(log.len(), 2);
    assert_eq!(log[0].0, alice.0 as usize);
    assert_eq!(log[1].0, bob.0 as usize);
    assert_eq!(log[0].1, state.leaf_bytes(alice.0 as usize));
    assert_eq!(log[1].1, state.leaf_bytes(bob.0 as usize));
    assert_eq!(w.roots, vec![0, 2]);
    assert_eq!(w.sender_pre_paths, vec![(0, alice.0 as usize)]);
    assert_eq!(w.sender_post_paths, vec![(2, alice.0 as usize)]);
}
