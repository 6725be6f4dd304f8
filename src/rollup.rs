//! The native half of building a rollup witness: which transactions are admitted,
//! which records the circuit is shown, and how the ledger moves between steps.

use crate::account::AccountInformation;
use crate::account::account_bytes;
use crate::ledger::{batch_records, lemma_batch_split, record_of, transfer, Parameters, State};
use crate::transaction::{transaction_valid, Transaction};
use vstd::prelude::*;

verus! {

/// The records of sender and recipient before one transaction of a batch.
#[derive(Debug)]
pub struct StepWitness {
    pub sender_pre_info: AccountInformation,
    pub recipient_pre_info: AccountInformation,
}

/// Whether every transaction of `transactions` is valid against `state` as it is.
pub fn batch_is_valid(parameters: &Parameters, state: &State, transactions: &[Transaction]) -> (r: bool)
    ensures
        r == forall|i: int|
            0 <= i < transactions@.len() ==> transaction_valid(
                #[trigger] &transactions@[i],
                parameters,
                state,
            ),
{
    let mut i: usize = 0;
    while i < transactions.len()
        invariant
            0 <= i <= transactions@.len(),
            forall|j: int| 0 <= j < i ==> transaction_valid(#[trigger] &transactions@[j], parameters, state),
        decreases transactions@.len() - i,
    {
        if !transactions[i].validate(parameters, state) {
            return false;
        }
        i = i + 1;
    }
    true
}

/// One step of a batch. Where sender or recipient does not exist, returns `None` and
/// changes nothing. Otherwise records both parties' records, then applies `tx`; in strict
/// mode (`validate`) a transaction that does not apply makes the step return `None`, in
/// permissive mode it is skipped and the step goes on with the ledger unchanged.
pub fn apply_step(state: &mut State, parameters: &Parameters, tx: &Transaction, validate: bool) -> (r: Option<StepWitness>)
    requires
        old(state).wf(),
    ensures
        final(state).wf(),
        final(state).leaf_count() == old(state).leaf_count(),
        !(old(state).has(tx.sender) && old(state).has(tx.recipient)) ==> r is None && final(state).view() == old(state).view(),
        old(state).has(tx.sender) && old(state).has(tx.recipient) ==> {
            &&& (r is None <==> validate && transfer(old(state), parameters, tx) is None)
            &&& match transfer(old(state), parameters, tx) {
                Some(v) => final(state).view() == v,
                None => final(state).view() == old(state).view(),
            }
            &&& match r {
                Some(w) => w.sender_pre_info@ == old(state).info(tx.sender)
                    && w.recipient_pre_info@ == old(state).info(tx.recipient),
                None => true,
            }
        },
{
    let sender_pre_info = match state.account_info(tx.sender) {
        Some(info) => info.clone(),
        None => return None,
    };
    let recipient_pre_info = match state.account_info(tx.recipient) {
        Some(info) => info.clone(),
        None => return None,
    };
    let applied = state.apply_transaction(parameters, tx);
    match applied {
        Some(()) => {},
        None => {
            if validate {
                return None;
            }
        },
    }
    Some(StepWitness { sender_pre_info, recipient_pre_info })
}

/// Everything a batch circuit is shown. The roots are kept once each: `roots[i]` is the
/// root before the i-th transaction and `roots[i + 1]` the root after it, so each step
/// starts where the last one ended. For each transaction, both parties' records before it
/// and their authentication paths before and after it.
pub struct BatchWitness<R, P> {
    pub roots: Vec<R>,
    pub steps: Vec<StepWitness>,
    pub sender_pre_paths: Vec<P>,
    pub recipient_pre_paths: Vec<P>,
    pub sender_post_paths: Vec<P>,
    pub recipient_post_paths: Vec<P>,
}

/// How a run reads and writes its tree: `trees[0]` is the tree given; `trees[k + 1]` comes
/// from `trees[k]` by rewriting the sender's leaf (giving `mids[k]`) and then the
/// recipient's, each with its leaf in the records after step `k`. `roots[k]` is read from
/// `trees[k]`; the paths before step `k` from `trees[k]`, those after it from `trees[k + 1]`.
pub open spec fn tree_run<T, R, P, FR, FP, FW>(
    trees: Seq<T>,
    mids: Seq<T>,
    sender_leaves: Seq<Vec<u8>>,
    recipient_leaves: Seq<Vec<u8>>,
    start: Seq<(Seq<u8>, u64)>,
    pp: &Parameters,
    transactions: Seq<Transaction>,
    validate: bool,
    roots: Seq<R>,
    sender_pre: Seq<P>,
    recipient_pre: Seq<P>,
    sender_post: Seq<P>,
    recipient_post: Seq<P>,
    root: FR,
    proof: FP,
    rewrite: FW,
) -> bool where FR: Fn(&T) -> R, FP: Fn(&T, usize) -> P, FW: Fn(T, usize, Vec<u8>) -> T {
    let n = mids.len();
    &&& trees.len() == n + 1
    &&& roots.len() == n + 1
    &&& sender_leaves.len() == n
    &&& recipient_leaves.len() == n
    &&& sender_pre.len() == n
    &&& recipient_pre.len() == n
    &&& sender_post.len() == n
    &&& recipient_post.len() == n
    &&& n <= transactions.len()
    &&& forall|k: int| 0 <= k <= n ==> root.ensures((&trees[k],), #[trigger] roots[k])
    &&& forall|k: int|
        0 <= k < n ==> {
            let tx = transactions[k];
            let after = batch_records(start, pp, transactions.subrange(0, k + 1), validate)->Some_0;
            let s = tx.sender.0 as usize;
            let r = tx.recipient.0 as usize;
            &&& sender_leaves[k]@ == account_bytes(record_of(after, tx.sender))
            &&& recipient_leaves[k]@ == account_bytes(record_of(after, tx.recipient))
            &&& rewrite.ensures((trees[k], s, sender_leaves[k]), #[trigger] mids[k])
            &&& rewrite.ensures((mids[k], r, recipient_leaves[k]), trees[k + 1])
            &&& proof.ensures((&trees[k], s), sender_pre[k])
            &&& proof.ensures((&trees[k], r), recipient_pre[k])
            &&& proof.ensures((&trees[k + 1], s), sender_post[k])
            &&& proof.ensures((&trees[k + 1], r), recipient_post[k])
        }
}

/// Builds the witness of a batch over a tree of any representation. `root` reads the
/// tree's root, `proof` the authentication path of a leaf, and `rewrite` writes a leaf.
/// After each step the sender's leaf and then the recipient's are rewritten from the
/// ledger. In strict mode (`validate`) the batch is refused, changing nothing, unless
/// every transaction is valid against the ledger as it is at the start; any step that
/// returns `None` (see `apply_step`) ends the run with `None`. On success the ledger is the
/// batch applied in order (`batch_records`), and the roots, the paths and the tree returned
/// are those of `tree_run`.
pub fn build_batch<T, R, P, FR, FP, FW>(
    state: &mut State,
    parameters: &Parameters,
    transactions: &[Transaction],
    validate: bool,
    tree: T,
    root: FR,
    proof: FP,
    rewrite: FW,
) -> (r: (Option<BatchWitness<R, P>>, T)) where
    FR: Fn(&T) -> R,
    FP: Fn(&T, usize) -> P,
    FW: Fn(T, usize, Vec<u8>) -> T,

    requires
        old(state).wf(),
        forall|t: &T| #[trigger] root.requires((t,)),
        forall|t: &T, i: usize| #[trigger] proof.requires((t, i)),
        forall|t: T, i: usize, leaf: Vec<u8>| #[trigger] rewrite.requires((t, i, leaf)),
    ensures
        final(state).wf(),
        final(state).leaf_count() == old(state).leaf_count(),
        validate && !(forall|i: int|
            0 <= i < transactions@.len() ==> transaction_valid(
                #[trigger] &transactions@[i],
                parameters,
                old(state),
            )) ==> r.0 is None && final(state).view() == old(state).view(),
        r.0 is Some <==> (!validate || forall|i: int|
            0 <= i < transactions@.len() ==> transaction_valid(
                #[trigger] &transactions@[i],
                parameters,
                old(state),
            )) && batch_records(old(state).view(), parameters, transactions@, validate) is Some,
        r.0 is Some ==> final(state).view() == batch_records(
            old(state).view(),
            parameters,
            transactions@,
            validate,
        )->Some_0,
        match r.0 {
            Some(w) => {
                &&& w.roots@.len() == transactions@.len() + 1
                &&& w.steps@.len() == transactions@.len()
                &&& w.sender_pre_paths@.len() == transactions@.len()
                &&& w.recipient_pre_paths@.len() == transactions@.len()
                &&& w.sender_post_paths@.len() == transactions@.len()
                &&& w.recipient_post_paths@.len() == transactions@.len()
                &&& exists|trees: Seq<T>, mids: Seq<T>, ls: Seq<Vec<u8>>, lr: Seq<Vec<u8>>|
                    #[trigger] tree_run(
                        trees,
                        mids,
                        ls,
                        lr,
                        old(state).view(),
                        parameters,
                        transactions@,
                        validate,
                        w.roots@,
                        w.sender_pre_paths@,
                        w.recipient_pre_paths@,
                        w.sender_post_paths@,
                        w.recipient_post_paths@,
                        root,
                        proof,
                        rewrite,
                    ) && mids.len() == transactions@.len() && trees[0] == tree
                        && trees.last() == r.1
                &&& forall|k: int|
                    0 <= k < transactions@.len() ==> {
                        let before = batch_records(
                            old(state).view(),
                            parameters,
                            transactions@.subrange(0, k),
                            validate,
                        )->Some_0;
                        &&& (#[trigger] w.steps@[k]).sender_pre_info@ == record_of(
                            before,
                            transactions@[k].sender,
                        )
                        &&& w.steps@[k].recipient_pre_info@ == record_of(
                            before,
                            transactions@[k].recipient,
                        )
                    }
            },
            None => true,
        },
{
    if validate && !batch_is_valid(parameters, state, transactions) {
        return (None, tree);
    }
    let mut tree = tree;
    let ghost first_tree = tree;
    let first_root = root(&tree);
    let ghost mut trees: Seq<T> = seq![tree];
    let ghost mut mids: Seq<T> = Seq::empty();
    let ghost mut ls: Seq<Vec<u8>> = Seq::empty();
    let ghost mut lr: Seq<Vec<u8>> = Seq::empty();
    let mut roots: Vec<R> = Vec::new();
    roots.push(first_root);
    let mut steps: Vec<StepWitness> = Vec::new();
    let mut sender_pre_paths: Vec<P> = Vec::new();
    let mut recipient_pre_paths: Vec<P> = Vec::new();
    let mut sender_post_paths: Vec<P> = Vec::new();
    let mut recipient_post_paths: Vec<P> = Vec::new();
    let mut i: usize = 0;
    assert(transactions@.subrange(0, transactions@.len() as int) =~= transactions@);
    assert(transactions@.subrange(0, 0) =~= Seq::<Transaction>::empty());
    while i < transactions.len()
        invariant
            0 <= i <= transactions@.len(),
            state.wf(),
            state.leaf_count() == old(state).leaf_count(),
            forall|t: &T| #[trigger] root.requires((t,)),
            forall|t: &T, j: usize| #[trigger] proof.requires((t, j)),
            forall|t: T, j: usize, leaf: Vec<u8>| #[trigger] rewrite.requires((t, j, leaf)),
            validate ==> forall|j: int|
                0 <= j < transactions@.len() ==> transaction_valid(
                    #[trigger] &transactions@[j],
                    parameters,
                    old(state),
                ),
            batch_records(old(state).view(), parameters, transactions@, validate) == batch_records(
                state.view(),
                parameters,
                transactions@.subrange(i as int, transactions@.len() as int),
                validate,
            ),
            batch_records(
                old(state).view(),
                parameters,
                transactions@.subrange(0, i as int),
                validate,
            ) == Some(state.view()),
            forall|k: int|
                0 <= k < i ==> {
                    let before = batch_records(
                        old(state).view(),
                        parameters,
                        transactions@.subrange(0, k),
                        validate,
                    )->Some_0;
                    &&& (#[trigger] steps@[k]).sender_pre_info@ == record_of(
                        before,
                        transactions@[k].sender,
                    )
                    &&& steps@[k].recipient_pre_info@ == record_of(
                        before,
                        transactions@[k].recipient,
                    )
                },
            roots@.len() == i + 1,
            mids.len() == i,
            trees[0] == first_tree,
            trees.last() == tree,
            tree_run(
                trees,
                mids,
                ls,
                lr,
                old(state).view(),
                parameters,
                transactions@,
                validate,
                roots@,
                sender_pre_paths@,
                recipient_pre_paths@,
                sender_post_paths@,
                recipient_post_paths@,
                root,
                proof,
                rewrite,
            ),
            steps@.len() == i,
            sender_pre_paths@.len() == i,
            recipient_pre_paths@.len() == i,
            sender_post_paths@.len() == i,
            recipient_post_paths@.len() == i,
        decreases transactions@.len() - i,
    {
        let tx = &transactions[i];
        let ghost rest = transactions@.subrange(i as int, transactions@.len() as int);
        proof {
            assert(rest[0] == *tx);
            assert(rest.drop_first() =~= transactions@.subrange(i + 1, transactions@.len() as int));
        }
        let sender = tx.sender.0 as usize;
        let recipient = tx.recipient.0 as usize;
        if state.account_info(tx.sender).is_none() || state.account_info(tx.recipient).is_none() {
            return (None, tree);
        }
        let sender_pre_path = proof(&tree, sender);
        let recipient_pre_path = proof(&tree, recipient);
        let ghost prev = state.view();
        let step = match apply_step(state, parameters, tx, validate) {
            Some(w) => w,
            None => return (None, tree),
        };
        proof {
            let done = transactions@.subrange(0, i as int);
            assert(transactions@.subrange(0, i + 1) =~= done + seq![*tx]);
            lemma_batch_split(old(state).view(), parameters, done, seq![*tx], validate);
            assert(seq![*tx].drop_first() =~= Seq::<Transaction>::empty());
            reveal_with_fuel(batch_records, 2);
            assert(batch_records(prev, parameters, seq![*tx], validate) == Some(state.view()));
        }
        let sender_leaf = state.leaf_bytes(sender);
        let ghost t0 = tree;
        let ghost l1 = sender_leaf;
        tree = rewrite(tree, sender, sender_leaf);
        let ghost t1 = tree;
        let recipient_leaf = state.leaf_bytes(recipient);
        let ghost l2 = recipient_leaf;
        tree = rewrite(tree, recipient, recipient_leaf);
        let new_root = root(&tree);
        roots.push(new_root);
        steps.push(step);
        sender_pre_paths.push(sender_pre_path);
        recipient_pre_paths.push(recipient_pre_path);
        let sender_post_path = proof(&tree, sender);
        let recipient_post_path = proof(&tree, recipient);
        sender_post_paths.push(sender_post_path);
        recipient_post_paths.push(recipient_post_path);
        proof {
            trees = trees.push(tree);
            mids = mids.push(t1);
            ls = ls.push(l1);
            lr = lr.push(l2);
        }
        i = i + 1;
    }
    proof {
        assert(transactions@.subrange(i as int, transactions@.len() as int).len() == 0);
    }
    let witness = BatchWitness {
        roots,
        steps,
        sender_pre_paths,
        recipient_pre_paths,
        sender_post_paths,
        recipient_post_paths,
    };
    assert(tree_run(
        trees,
        mids,
        ls,
        lr,
        old(state).view(),
        parameters,
        transactions@,
        validate,
        witness.roots@,
        witness.sender_pre_paths@,
        witness.recipient_pre_paths@,
        witness.sender_post_paths@,
        witness.recipient_post_paths@,
        root,
        proof,
        rewrite,
    ));
    (Some(witness), tree)
}

} // verus!
