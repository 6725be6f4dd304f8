//! Signed transfers between accounts.

use crate::account::{AccountId, AccountSecretKey};
use crate::amount::Amount;
use crate::crypto::{scalar_decodes, valid_point};
use crate::bytes::append_bytes;
use crate::ledger::{has_id, record_of, Parameters, State};
use crate::signature::{sig_view, signature_with_nonce, verifies, Schnorr, Signature};
use vstd::prelude::*;

verus! {

/// A transfer of `amount` from `sender` to `recipient`, authorised by a signature
/// over the sender, the recipient and the amount.
#[derive(Debug)]
pub struct Transaction {
    pub sender: AccountId,
    pub recipient: AccountId,
    pub amount: Amount,
    pub signature: Signature,
}

impl Clone for Transaction {
    fn clone(&self) -> (r: Self)
        ensures
            r.sender == self.sender,
            r.recipient == self.recipient,
            r.amount == self.amount,
            r.signature.prover_response@ == self.signature.prover_response@,
            r.signature.verifier_challenge@ == self.signature.verifier_challenge@,
    {
        Transaction {
            sender: self.sender,
            recipient: self.recipient,
            amount: self.amount,
            signature: self.signature.clone(),
        }
    }
}

/// The signature a transaction carries, as byte strings.
pub open spec fn tx_signature_view(o: Option<Transaction>) -> Option<(Seq<u8>, Seq<u8>)> {
    match o {
        Some(tx) => Some((tx.signature.prover_response@, tx.signature.verifier_challenge@)),
        None => None,
    }
}

/// The signed message: `sender || recipient || amount_le`.
pub open spec fn signed_message(sender: AccountId, recipient: AccountId, amount: Amount) -> Seq<u8> {
    seq![sender.0, recipient.0] + Amount::bytes_of(amount.0)
}

/// Whether `tx` is valid against `state`: the sender exists, the signature verifies
/// under the sender's key, the amount does not exceed the sender's balance, and the
/// recipient exists. (The sender's tree leaf is the encoding of the sender's record by
/// the way `State` defines its leaves.)
pub open spec fn transaction_valid(tx: &Transaction, pp: &Parameters, state: &State) -> bool {
    valid_in(tx, pp, state.view())
}

/// `transaction_valid` against the records of a ledger.
pub open spec fn valid_in(tx: &Transaction, pp: &Parameters, records: Seq<(Seq<u8>, u64)>) -> bool {
    &&& has_id(records, tx.sender)
    &&& verifies(
        pp.sig_params.generator@,
        pp.sig_params.salt_prefix(),
        record_of(records, tx.sender).0,
        signed_message(tx.sender, tx.recipient, tx.amount),
        tx.signature.prover_response@,
        tx.signature.verifier_challenge@,
    )
    &&& tx.amount.0 <= record_of(records, tx.sender).1
    &&& has_id(records, tx.recipient)
}

/// The message that a transaction from `sender` to `recipient` of `amount` signs.
pub fn message(sender: AccountId, recipient: AccountId, amount: Amount) -> (r: Vec<u8>)
    ensures
        r@ == signed_message(sender, recipient, amount),
{
    let mut out = sender.to_bytes_le();
    let r = recipient.to_bytes_le();
    append_bytes(&mut out, r.as_slice());
    let a = amount.to_bytes_le();
    append_bytes(&mut out, a.as_slice());
    assert(out@ =~= signed_message(sender, recipient, amount));
    out
}

impl Transaction {
    /// Checks the conditions of `transaction_valid`.
    pub fn validate(&self, parameters: &Parameters, state: &State) -> (r: bool)
        ensures
            r == transaction_valid(self, parameters, state),
    {
        let sender_acc_info = match state.account_info(self.sender) {
            Some(info) => info,
            None => return false,
        };
        let msg = message(self.sender, self.recipient, self.amount);
        let mut result = Schnorr::verify(
            &parameters.sig_params,
            &sender_acc_info.public_key,
            msg.as_slice(),
            &self.signature,
        );
        result = result && self.amount.0 <= sender_acc_info.balance.0;
        result = result && state.account_info(self.recipient).is_some();
        result
    }

    /// A transaction signed with `sender_sk` and the nonce `nonce`.
    pub fn create_with_nonce(
        parameters: &Parameters,
        sender: AccountId,
        recipient: AccountId,
        amount: Amount,
        sender_sk: &AccountSecretKey,
        nonce: &Vec<u8>,
    ) -> (r: Option<Self>)
        ensures
            match r {
                Some(tx) => tx.sender == sender && tx.recipient == recipient && tx.amount == amount
                    && signature_with_nonce(
                    parameters.sig_params.generator@,
                    parameters.sig_params.salt_prefix(),
                    sender_sk.public_key@,
                    sender_sk.secret_key@,
                    signed_message(sender, recipient, amount),
                    nonce@,
                ) == Some((tx.signature.prover_response@, tx.signature.verifier_challenge@)),
                None => signature_with_nonce(
                    parameters.sig_params.generator@,
                    parameters.sig_params.salt_prefix(),
                    sender_sk.public_key@,
                    sender_sk.secret_key@,
                    signed_message(sender, recipient, amount),
                    nonce@,
                ) is None,
            },
    {
        let msg = message(sender, recipient, amount);
        match Schnorr::sign_with_nonce(&parameters.sig_params, sender_sk, msg.as_slice(), nonce) {
            Some(signature) => Some(Transaction { sender, recipient, amount, signature }),
            None => None,
        }
    }

    /// A (possibly invalid) transaction signed with `sender_sk` and a freshly drawn nonce.
    pub fn create(
        parameters: &Parameters,
        sender: AccountId,
        recipient: AccountId,
        amount: Amount,
        sender_sk: &AccountSecretKey,
        rng: &mut ark_std::rand::rngs::StdRng,
    ) -> (r: Option<Self>)
        ensures
            r is Some <==> valid_point(parameters.sig_params.generator@) && scalar_decodes(
                sender_sk.secret_key@,
            ),
            match r {
                Some(tx) => tx.sender == sender && tx.recipient == recipient && tx.amount == amount,
                None => true,
            },
            exists|nonce: Seq<u8>|
                tx_signature_view(r) == #[trigger] signature_with_nonce(
                    parameters.sig_params.generator@,
                    parameters.sig_params.salt_prefix(),
                    sender_sk.public_key@,
                    sender_sk.secret_key@,
                    signed_message(sender, recipient, amount),
                    nonce,
                ),
    {
        let nonce = crate::crypto::random_scalar(rng);
        Self::create_with_nonce(parameters, sender, recipient, amount, sender_sk, &nonce)
    }
}

} // verus!
