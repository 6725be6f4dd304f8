use crate::amount::{le_value, Amount};
use crate::bytes::append_bytes;
use crate::signature::{PublicKey, SecretKey};
use vstd::prelude::*;

verus! {

/// Account public key used to verify transaction signatures.
pub type AccountPublicKey = PublicKey;

/// Account secret key used to create transaction signatures.
pub type AccountSecretKey = SecretKey;

/// Length of an encoded public key.
pub const PUBLIC_KEY_LEN: usize = 64;

/// Length of an encoded account record: the public key, then the balance.
pub const ACCOUNT_INFO_LEN: usize = 72;

/// Account identifier. At most 256 accounts can be addressed; identifier 0 is never issued.
#[derive(Clone, Copy, Debug, PartialEq, Eq, Structural, PartialOrd, Ord, Hash)]
pub struct AccountId(pub u8);

impl AccountId {
    /// The identifier as a single byte.
    pub fn to_bytes_le(&self) -> (r: Vec<u8>)
        ensures
            r@ == seq![self.0],
    {
        vec![self.0]
    }

    /// Moves to the next identifier in place; fails, leaving it as it was, at 255.
    pub fn checked_increment(&mut self) -> (r: Option<()>)
        ensures
            old(self).0 < 255 ==> r == Some(()) && final(self).0 == old(self).0 + 1,
            old(self).0 == 255 ==> r == None::<()> && *final(self) == *old(self),
    {
        match self.0.checked_add(1) {
            Some(next) => {
                self.0 = next;
                Some(())
            },
            None => None,
        }
    }
}

/// The public key and balance of an account.
#[derive(Debug)]
pub struct AccountInformation {
    pub public_key: AccountPublicKey,
    pub balance: Amount,
}

impl View for AccountInformation {
    type V = (Seq<u8>, u64);

    open spec fn view(&self) -> (Seq<u8>, u64) {
        (self.public_key@, self.balance.0)
    }
}

impl Clone for AccountInformation {
    fn clone(&self) -> (r: Self)
        ensures
            r@ == self@,
    {
        AccountInformation { public_key: self.public_key.clone(), balance: self.balance }
    }
}

/// The canonical encoding of a record: `public_key || balance_le`.
pub open spec fn account_bytes(v: (Seq<u8>, u64)) -> Seq<u8> {
    v.0 + Amount::bytes_of(v.1)
}

/// The record that `bytes` encodes, where it has the length of one.
pub open spec fn decode_account(bytes: Seq<u8>) -> Option<(Seq<u8>, u64)> {
    if bytes.len() == ACCOUNT_INFO_LEN {
        Some(
            (
                bytes.subrange(0, PUBLIC_KEY_LEN as int),
                le_value(bytes.subrange(PUBLIC_KEY_LEN as int, ACCOUNT_INFO_LEN as int)) as u64,
            ),
        )
    } else {
        None
    }
}

impl AccountInformation {
    /// The canonical encoding: the public key's 64 bytes, then the balance's 8.
    pub fn to_bytes_le(&self) -> (r: Vec<u8>)
        ensures
            r@ == account_bytes(self@),
            self.public_key@.len() == PUBLIC_KEY_LEN ==> decode_account(r@) == Some(self@),
    {
        let mut out: Vec<u8> = Vec::new();
        append_bytes(&mut out, self.public_key.bytes.as_slice());
        let balance = self.balance.to_bytes_le();
        append_bytes(&mut out, balance.as_slice());
        assert(out@ =~= account_bytes(self@));
        proof {
            if self.public_key@.len() == PUBLIC_KEY_LEN {
                lemma_account_bytes_round_trip(self@);
            }
        }
        out
    }

    /// Reads a record back from its canonical encoding.
    pub fn from_bytes_le(bytes: &[u8]) -> (r: Option<Self>)
        ensures
            match r {
                Some(info) => decode_account(bytes@) == Some(info@),
                None => decode_account(bytes@) is None,
            },
    {
        if bytes.len() != ACCOUNT_INFO_LEN {
            return None;
        }
        let mut key: Vec<u8> = Vec::new();
        let mut bal: Vec<u8> = Vec::new();
        let mut i: usize = 0;
        while i < ACCOUNT_INFO_LEN
            invariant
                0 <= i <= ACCOUNT_INFO_LEN,
                bytes@.len() == ACCOUNT_INFO_LEN,
                i <= PUBLIC_KEY_LEN ==> key@ == bytes@.subrange(0, i as int) && bal@.len() == 0,
                i > PUBLIC_KEY_LEN ==> key@ == bytes@.subrange(0, PUBLIC_KEY_LEN as int)
                    && bal@ == bytes@.subrange(PUBLIC_KEY_LEN as int, i as int),
            decreases ACCOUNT_INFO_LEN - i,
        {
            if i < PUBLIC_KEY_LEN {
                key.push(bytes[i]);
            } else {
                bal.push(bytes[i]);
            }
            i = i + 1;
            assert(key@ =~= bytes@.subrange(0, if i <= PUBLIC_KEY_LEN { i as int } else { PUBLIC_KEY_LEN as int }));
            assert(i > PUBLIC_KEY_LEN ==> bal@ =~= bytes@.subrange(PUBLIC_KEY_LEN as int, i as int));
        }
        match Amount::from_bytes_le(bal.as_slice()) {
            Some(balance) => Some(AccountInformation { public_key: PublicKey { bytes: key }, balance }),
            None => None,
        }
    }
}

/// Decoding the canonical encoding of a record gives the record back.
pub proof fn lemma_account_bytes_round_trip(v: (Seq<u8>, u64))
    requires
        v.0.len() == PUBLIC_KEY_LEN,
    ensures
        decode_account(account_bytes(v)) == Some(v),
{
    let b = account_bytes(v);
    crate::amount::lemma_le_bytes_len(v.1 as nat, 8);
    assert(b.subrange(0, PUBLIC_KEY_LEN as int) =~= v.0);
    assert(b.subrange(PUBLIC_KEY_LEN as int, ACCOUNT_INFO_LEN as int) =~= Amount::bytes_of(v.1));
    assert(v.1 < crate::amount::pow256(8)) by {
        reveal_with_fuel(crate::amount::pow256, 9);
    }
    crate::amount::lemma_le_round_trip(v.1 as nat, 8);
}

} // verus!
