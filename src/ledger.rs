//! The native ledger: account records kept in identifier order, and the
//! leaves of the account Merkle tree that they determine.

use crate::account::{
    account_bytes, AccountId, AccountInformation, AccountPublicKey, AccountSecretKey,
    ACCOUNT_INFO_LEN, PUBLIC_KEY_LEN,
};
use crate::amount::Amount;
use crate::crypto::{ceil_log2, curve_mul, generator_bytes, valid_point};
use crate::signature::{Parameters as SchnorrParameters, Schnorr};
use crate::transaction::{transaction_valid, valid_in, Transaction};
use vstd::arithmetic::power2::pow2;
use vstd::prelude::*;

verus! {

/// The parameters that are used in transaction creation and validation.
#[derive(Debug)]
pub struct Parameters {
    pub sig_params: SchnorrParameters,
}

impl Clone for Parameters {
    fn clone(&self) -> (r: Self)
        ensures
            r.sig_params.generator@ == self.sig_params.generator@,
            r.sig_params.salt_prefix() == self.sig_params.salt_prefix(),
    {
        Parameters { sig_params: self.sig_params.clone() }
    }
}

impl Parameters {
    /// Signature parameters over the curve's prime-subgroup generator, with no salt.
    pub fn sample() -> (r: Self)
        ensures
            r.sig_params.generator@ == generator_bytes(),
            valid_point(r.sig_params.generator@),
            r.sig_params.salt is None,
    {
        Parameters { sig_params: Schnorr::setup() }
    }
}

/// Whether `id` is issued among `records`, the record of identifier `i` at position `i - 1`.
pub open spec fn has_id(records: Seq<(Seq<u8>, u64)>, id: AccountId) -> bool {
    1 <= id.0 <= records.len()
}

/// The record of `id` among `records`.
pub open spec fn record_of(records: Seq<(Seq<u8>, u64)>, id: AccountId) -> (Seq<u8>, u64) {
    records[id.0 - 1]
}

/// The leaf of a position that holds no account.
pub open spec fn blank_leaf() -> Seq<u8> {
    Seq::new(ACCOUNT_INFO_LEN as nat, |i: int| 0u8)
}

/// Account records by identifier, the record of identifier `i` at position `i - 1`,
/// and the number of leaves of the account tree, fixed at construction.
#[derive(Debug)]
pub struct State {
    accounts: Vec<AccountInformation>,
    num_leaves: usize,
}

impl Clone for State {
    fn clone(&self) -> (r: Self)
        ensures
            r.view() == self.view(),
            r.leaf_count() == self.leaf_count(),
    {
        let mut accounts: Vec<AccountInformation> = Vec::new();
        let mut i: usize = 0;
        while i < self.accounts.len()
            invariant
                0 <= i <= self.accounts@.len(),
                accounts@.len() == i,
                forall|j: int| 0 <= j < i ==> #[trigger] accounts@[j]@ == self.accounts@[j]@,
                self.view() == self.accounts@.map_values(|a: AccountInformation| a@),
            decreases self.accounts@.len() - i,
        {
            accounts.push(self.accounts[i].clone());
            i = i + 1;
        }
        let r = State { accounts, num_leaves: self.num_leaves };
        assert(r.view() =~= self.view());
        r
    }
}

impl State {
    /// The records, in identifier order.
    pub closed spec fn view(&self) -> Seq<(Seq<u8>, u64)> {
        self.accounts@.map_values(|a: AccountInformation| a@)
    }

    /// The number of leaves of the account tree.
    pub closed spec fn leaf_count(&self) -> nat {
        self.num_leaves as nat
    }

    /// Identifiers `1..=n` are issued for `n` records, each below the number of leaves,
    /// and every public key has the length of an encoded point.
    pub open spec fn wf(&self) -> bool {
        &&& self.view().len() < 256
        &&& self.view().len() < self.leaf_count()
        &&& forall|i: int|
            0 <= i < self.view().len() ==> (#[trigger] self.view()[i]).0.len() == PUBLIC_KEY_LEN
    }

    /// The number of leaves of the account tree.
    pub fn num_leaves(&self) -> (r: usize)
        ensures
            r == self.leaf_count(),
    {
        self.num_leaves
    }

    /// The number of accounts registered so far.
    pub fn num_accounts(&self) -> (r: usize)
        ensures
            r == self.view().len(),
    {
        self.accounts.len()
    }

    /// Whether `id` has been issued.
    pub open spec fn has(&self, id: AccountId) -> bool {
        has_id(self.view(), id)
    }

    /// The record of an issued identifier.
    pub open spec fn info(&self, id: AccountId) -> (Seq<u8>, u64) {
        record_of(self.view(), id)
    }

    /// The leaf at position `i` of the account tree.
    pub open spec fn leaf_at(&self, i: int) -> Seq<u8> {
        if 1 <= i <= self.view().len() {
            account_bytes(self.view()[i - 1])
        } else {
            blank_leaf()
        }
    }

    /// All leaves of the account tree.
    pub open spec fn leaves(&self) -> Seq<Seq<u8>> {
        Seq::new(self.leaf_count(), |i: int| self.leaf_at(i))
    }

    /// The identifier that the next registration receives.
    pub open spec fn next_id(&self) -> Option<AccountId> {
        if self.view().len() + 1 < self.leaf_count() && self.view().len() < 255 {
            Some(AccountId((self.view().len() + 1) as u8))
        } else {
            None
        }
    }

    /// An empty ledger for about `num_accounts` accounts: its tree has height
    /// `ceil(log2(num_accounts))`, hence `2^(height - 1)` leaves.
    pub fn new(num_accounts: usize, _parameters: &Parameters) -> (r: Self)
        requires
            num_accounts >= 3,
        ensures
            r.wf(),
            r.view().len() == 0,
            exists|k: nat| r.leaf_count() == pow2(k),
            r.leaf_count() < num_accounts <= 2 * r.leaf_count(),
            r.leaf_count() >= 2,
    {
        let height = ceil_log2(num_accounts);
        proof {
            vstd::arithmetic::power2::lemma2_to64();
        }
        let mut leaves: usize = 1;
        let mut i: u32 = 1;
        while i < height
            invariant
                1 <= i <= height,
                height <= 64,
                pow2((height - 1) as nat) < num_accounts,
                leaves == pow2((i - 1) as nat),
            decreases height - i,
        {
            proof {
                vstd::arithmetic::power2::lemma_pow2_unfold(i as nat);
                if i < height - 1 {
                    vstd::arithmetic::power2::lemma_pow2_strictly_increases(i as nat, (height - 1) as nat);
                }
            }
            leaves = leaves * 2;
            i = i + 1;
        }
        proof {
            vstd::arithmetic::power2::lemma2_to64();
            vstd::arithmetic::power2::lemma_pow2_unfold(height as nat);
            if height > 2 {
                vstd::arithmetic::power2::lemma_pow2_strictly_increases(1, (height - 1) as nat);
            }
            vstd::arithmetic::power2::lemma_pow2_unfold((height - 1) as nat);
        }
        State { accounts: Vec::new(), num_leaves: leaves }
    }

    /// The identifier that the next registration receives, if there is room.
    pub fn next_available_account(&self) -> (r: Option<AccountId>)
        requires
            self.wf(),
        ensures
            r == self.next_id(),
    {
        let n = self.accounts.len();
        if n + 1 < self.num_leaves && n < 255 {
            Some(AccountId((n + 1) as u8))
        } else {
            None
        }
    }

    /// The record of `id`, if it has been issued.
    pub fn account_info(&self, id: AccountId) -> (r: Option<&AccountInformation>)
        ensures
            self.has(id) ==> r is Some && r->Some_0@ == self.info(id),
            !self.has(id) ==> r is None,
    {
        if id.0 >= 1 && (id.0 as usize) <= self.accounts.len() {
            Some(&self.accounts[id.0 as usize - 1])
        } else {
            None
        }
    }

    /// The identifier registered last with `public_key`, if any.
    pub fn id_of(&self, public_key: &AccountPublicKey) -> (r: Option<AccountId>)
        requires
            self.wf(),
        ensures
            match r {
                Some(id) => self.has(id) && self.info(id).0 == public_key@
                    && forall|j: int| id.0 <= j < self.view().len() ==> #[trigger] self.view()[j].0 != public_key@,
                None => forall|j: int| 0 <= j < self.view().len() ==> #[trigger] self.view()[j].0 != public_key@,
            },
    {
        let mut i: usize = self.accounts.len();
        while i > 0
            invariant
                0 <= i <= self.accounts@.len(),
                self.wf(),
                forall|j: int| i <= j < self.accounts@.len() ==> #[trigger] self.view()[j].0 != public_key@,
            decreases i,
        {
            let same = crate::bytes::bytes_equal(
                self.accounts[i - 1].public_key.bytes.as_slice(),
                public_key.bytes.as_slice(),
            );
            if same {
                return Some(AccountId(i as u8));
            }
            i = i - 1;
        }
        None
    }

    /// The leaf at position `index` of the account tree.
    pub fn leaf_bytes(&self, index: usize) -> (r: Vec<u8>)
        requires
            index < self.leaf_count(),
        ensures
            r@ == self.leaf_at(index as int),
    {
        if index >= 1 && index <= self.accounts.len() {
            self.accounts[index - 1].to_bytes_le()
        } else {
            let mut out: Vec<u8> = Vec::new();
            while out.len() < ACCOUNT_INFO_LEN
                invariant
                    out@.len() <= ACCOUNT_INFO_LEN,
                    forall|j: int| 0 <= j < out@.len() ==> out@[j] == 0u8,
                decreases ACCOUNT_INFO_LEN - out@.len(),
            {
                out.push(0u8);
            }
            assert(out@ =~= blank_leaf());
            out
        }
    }

    /// Creates an account with `public_key` and balance zero. Returns its identifier,
    /// or `None`, changing nothing, where no identifier is left.
    pub fn register(&mut self, public_key: AccountPublicKey) -> (r: Option<AccountId>)
        requires
            old(self).wf(),
            public_key@.len() == PUBLIC_KEY_LEN,
        ensures
            final(self).wf(),
            final(self).leaf_count() == old(self).leaf_count(),
            r == old(self).next_id(),
            r is Some ==> final(self).view() == old(self).view().push((public_key@, 0u64))
                && final(self).leaves() == old(self).leaves().update(
                r->Some_0.0 as int,
                account_bytes((public_key@, 0u64)),
            ),
            r is None ==> final(self).view() == old(self).view(),
    {
        match self.next_available_account() {
            Some(id) => {
                let ghost pk = public_key@;
                let info = AccountInformation { public_key, balance: Amount(0) };
                self.accounts.push(info);
                assert(self.view() =~= old(self).view().push((pk, 0u64)));
                assert(self.leaves() =~= old(self).leaves().update(id.0 as int, account_bytes((pk, 0u64))));
                Some(id)
            },
            None => None,
        }
    }

    /// Draws a key pair and registers its public key.
    pub fn sample_keys_and_register(
        &mut self,
        ledger_params: &Parameters,
        rng: &mut ark_std::rand::rngs::StdRng,
    ) -> (r: Option<(AccountId, AccountPublicKey, AccountSecretKey)>)
        requires
            old(self).wf(),
        ensures
            final(self).wf(),
            final(self).leaf_count() == old(self).leaf_count(),
            match r {
                Some((id, pk, sk)) => Some(id) == old(self).next_id()
                    && final(self).view() == old(self).view().push((pk@, 0u64))
                    && sk.public_key@ == pk@
                    && curve_mul(ledger_params.sig_params.generator@, sk.secret_key@) == pk@,
                None => final(self).view() == old(self).view(),
            },
            r is Some <==> old(self).next_id() is Some && valid_point(ledger_params.sig_params.generator@),
    {
        if self.next_available_account().is_none() {
            return None;
        }
        match Schnorr::keygen(&ledger_params.sig_params, rng) {
            Some((pk, sk)) => {
                let pk_copy = pk.clone();
                match self.register(pk) {
                    Some(id) => Some((id, pk_copy, sk)),
                    None => None,
                }
            },
            None => None,
        }
    }

    /// Sets the balance of `id` to `new_amount`. Returns `None`, changing nothing,
    /// where `id` has not been issued.
    pub fn update_balance(&mut self, id: AccountId, new_amount: Amount) -> (r: Option<()>)
        requires
            old(self).wf(),
        ensures
            final(self).wf(),
            final(self).leaf_count() == old(self).leaf_count(),
            old(self).has(id) ==> r == Some(()) && final(self).view() == old(self).view().update(
                id.0 - 1,
                (old(self).info(id).0, new_amount.0),
            ) && final(self).leaves() == old(self).leaves().update(
                id.0 as int,
                account_bytes((old(self).info(id).0, new_amount.0)),
            ),
            !old(self).has(id) ==> r is None && final(self).view() == old(self).view(),
    {
        if id.0 >= 1 && (id.0 as usize) <= self.accounts.len() {
            let i = id.0 as usize - 1;
            self.accounts[i].balance = new_amount;
            assert(self.view() =~= old(self).view().update(i as int, (old(self).info(id).0, new_amount.0)));
            assert(self.leaves() =~= old(self).leaves().update(
                id.0 as int,
                account_bytes((old(self).info(id).0, new_amount.0)),
            ));
            Some(())
        } else {
            None
        }
    }

    /// Applies `tx` where it is valid and its arithmetic does not overflow: the amount is
    /// taken from the sender's record, then added to the recipient's record as that leaves
    /// it. Otherwise returns `None`, changing nothing.
    pub fn apply_transaction(&mut self, pp: &Parameters, tx: &Transaction) -> (r: Option<()>)
        requires
            old(self).wf(),
        ensures
            final(self).wf(),
            final(self).leaf_count() == old(self).leaf_count(),
            r is Some <==> transfer(old(self), pp, tx) is Some,
            match transfer(old(self), pp, tx) {
                Some(v) => final(self).view() == v,
                None => final(self).view() == old(self).view(),
            },
    {
        if !tx.validate(pp, self) {
            return None;
        }
        let old_sender_bal = match self.account_info(tx.sender) {
            Some(info) => info.balance,
            None => return None,
        };
        let old_receiver_bal = match self.account_info(tx.recipient) {
            Some(info) => info.balance,
            None => return None,
        };
        let new_sender_bal = match old_sender_bal.checked_sub(tx.amount) {
            Some(b) => b,
            None => return None,
        };
        // The recipient's balance as the sender's debit leaves it.
        let receiver_base = if tx.sender == tx.recipient {
            new_sender_bal
        } else {
            old_receiver_bal
        };
        let new_receiver_bal = match receiver_base.checked_add(tx.amount) {
            Some(b) => b,
            None => return None,
        };
        self.update_balance(tx.sender, new_sender_bal);
        self.update_balance(tx.recipient, new_receiver_bal);
        Some(())
    }
}

/// The records after `tx`, where it applies to the ledger `state`.
pub open spec fn transfer(state: &State, pp: &Parameters, tx: &Transaction) -> Option<Seq<(Seq<u8>, u64)>> {
    transfer_records(state.view(), pp, tx)
}

/// The records after `tx`, where it applies: first the sender's balance less the amount,
/// then, on the records so changed, the recipient's balance plus the amount. A transfer
/// from an account to itself thus leaves its balance as it was.
pub open spec fn transfer_records(
    records: Seq<(Seq<u8>, u64)>,
    pp: &Parameters,
    tx: &Transaction,
) -> Option<Seq<(Seq<u8>, u64)>> {
    let s = record_of(records, tx.sender);
    let debited = records.update(tx.sender.0 - 1, (s.0, (s.1 - tx.amount.0) as u64));
    let r = record_of(debited, tx.recipient);
    if valid_in(tx, pp, records) && r.1 + tx.amount.0 <= u64::MAX {
        Some(debited.update(tx.recipient.0 - 1, (r.0, (r.1 + tx.amount.0) as u64)))
    } else {
        None
    }
}

/// The records after a batch, one transaction after the other. A transaction whose sender
/// or recipient does not exist ends the batch with `None`; one that does not apply does
/// too in strict mode (`validate`), and is skipped otherwise.
pub open spec fn batch_records(
    records: Seq<(Seq<u8>, u64)>,
    pp: &Parameters,
    transactions: Seq<Transaction>,
    validate: bool,
) -> Option<Seq<(Seq<u8>, u64)>>
    decreases transactions.len(),
{
    if transactions.len() == 0 {
        Some(records)
    } else {
        let tx = transactions[0];
        if !(has_id(records, tx.sender) && has_id(records, tx.recipient)) {
            None
        } else {
            match transfer_records(records, pp, &tx) {
                Some(next) => batch_records(next, pp, transactions.drop_first(), validate),
                None => if validate {
                    None
                } else {
                    batch_records(records, pp, transactions.drop_first(), validate)
                },
            }
        }
    }
}

} // verus!

verus! {

/// Writing the sender's new leaf and then the recipient's onto the tree before a
/// transaction yields the tree recomputed from the records after it.
pub proof fn lemma_transfer_rewrites_two_leaves(before: &State, after: &State, pp: &Parameters, tx: &Transaction)
    requires
        before.wf(),
        transfer(before, pp, tx) is Some,
        after.view() == transfer(before, pp, tx)->Some_0,
        after.leaf_count() == before.leaf_count(),
    ensures
        after.leaves() == before.leaves().update(
            tx.sender.0 as int,
            account_bytes(after.info(tx.sender)),
        ).update(tx.recipient.0 as int, account_bytes(after.info(tx.recipient))),
{
    assert(after.view().len() == before.view().len());
    assert(after.leaves() =~= before.leaves().update(
        tx.sender.0 as int,
        account_bytes(after.info(tx.sender)),
    ).update(tx.recipient.0 as int, account_bytes(after.info(tx.recipient))));
}

/// A valid transaction of amount zero applies and leaves every record as it was.
pub proof fn lemma_zero_amount_changes_nothing(state: &State, pp: &Parameters, tx: &Transaction)
    requires
        state.wf(),
        tx.amount.0 == 0,
        transaction_valid(tx, pp, state),
    ensures
        transfer(state, pp, tx) == Some(state.view()),
{
    let v = transfer(state, pp, tx)->Some_0;
    assert(v =~= state.view());
}

/// A valid transaction of the sender's whole balance to another account applies, where the
/// recipient's balance can take it, and leaves the sender with zero.
pub proof fn lemma_whole_balance_empties_sender(state: &State, pp: &Parameters, tx: &Transaction)
    requires
        state.wf(),
        transaction_valid(tx, pp, state),
        tx.amount.0 == state.info(tx.sender).1,
        tx.sender != tx.recipient,
        state.info(tx.recipient).1 + tx.amount.0 <= u64::MAX,
    ensures
        transfer(state, pp, tx) is Some,
        transfer(state, pp, tx)->Some_0[tx.sender.0 - 1].1 == 0,
{
}

/// A transaction of one more than the sender's balance is invalid and does not apply.
pub proof fn lemma_overdraft_rejected(state: &State, pp: &Parameters, tx: &Transaction)
    requires
        state.wf(),
        state.has(tx.sender),
        tx.amount.0 == state.info(tx.sender).1 + 1,
    ensures
        !transaction_valid(tx, pp, state),
        transfer(state, pp, tx) is None,
{
}

/// Sending one to another account whose balance is `2^64 - 1` does not apply.
pub proof fn lemma_recipient_overflow_rejected(state: &State, pp: &Parameters, tx: &Transaction)
    requires
        state.wf(),
        state.has(tx.recipient),
        state.info(tx.recipient).1 == u64::MAX,
        tx.amount.0 == 1,
        tx.sender != tx.recipient,
    ensures
        transfer(state, pp, tx) is None,
{
}

/// Running a batch in two parts, the second from where the first ended, is running it at once.
pub proof fn lemma_batch_split(
    records: Seq<(Seq<u8>, u64)>,
    pp: &Parameters,
    first: Seq<Transaction>,
    second: Seq<Transaction>,
    validate: bool,
)
    ensures
        batch_records(records, pp, first + second, validate) == match batch_records(
            records,
            pp,
            first,
            validate,
        ) {
            Some(mid) => batch_records(mid, pp, second, validate),
            None => None,
        },
    decreases first.len(),
{
    if first.len() == 0 {
        assert(first + second =~= second);
    } else {
        assert((first + second).drop_first() =~= first.drop_first() + second);
        assert((first + second)[0] == first[0]);
        let tx = first[0];
        match transfer_records(records, pp, &tx) {
            Some(next) => lemma_batch_split(next, pp, first.drop_first(), second, validate),
            None => lemma_batch_split(records, pp, first.drop_first(), second, validate),
        }
    }
}

/// The sum of all balances.
pub open spec fn total_balance(records: Seq<(Seq<u8>, u64)>) -> int
    decreases records.len(),
{
    if records.len() == 0 {
        0
    } else {
        total_balance(records.drop_last()) + records.last().1
    }
}

proof fn lemma_total_after_update(records: Seq<(Seq<u8>, u64)>, i: int, v: (Seq<u8>, u64))
    requires
        0 <= i < records.len(),
    ensures
        total_balance(records.update(i, v)) == total_balance(records) - records[i].1 + v.1,
    decreases records.len(),
{
    let u = records.update(i, v);
    if i == records.len() - 1 {
        assert(u.drop_last() =~= records.drop_last());
    } else {
        assert(u.drop_last() =~= records.drop_last().update(i, v));
        lemma_total_after_update(records.drop_last(), i, v);
    }
}

/// A transaction that applies moves money and creates none: the total of all balances
/// is the same after it.
pub proof fn lemma_transfer_preserves_total(
    records: Seq<(Seq<u8>, u64)>,
    pp: &Parameters,
    tx: &Transaction,
)
    requires
        transfer_records(records, pp, tx) is Some,
    ensures
        total_balance(transfer_records(records, pp, tx)->Some_0) == total_balance(records),
{
    let s = record_of(records, tx.sender);
    let debited = records.update(tx.sender.0 - 1, (s.0, (s.1 - tx.amount.0) as u64));
    lemma_total_after_update(records, tx.sender.0 - 1, (s.0, (s.1 - tx.amount.0) as u64));
    let r = record_of(debited, tx.recipient);
    lemma_total_after_update(debited, tx.recipient.0 - 1, (r.0, (r.1 + tx.amount.0) as u64));
}

} // verus!
