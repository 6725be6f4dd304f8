//! Schnorr signatures over Jubjub, with Blake2s as the Fiat-Shamir oracle.

use crate::bytes::append_bytes;
use crate::bytes::bytes_equal;
use crate::amount::le_value;
use crate::crypto::{
    blake2s, blake2s_of, curve_add, curve_mul, generator_bytes, lemma_scalar_bytes_decode,
    point_add, point_decodes, point_mul, random_scalar, reduce_to_scalar, scalar_bytes,
    scalar_decodes, scalar_mul, scalar_reads, scalar_sub, scalar_value, subgroup_generator,
    valid_point,
};
use vstd::prelude::*;

verus! {

/// A public key: the 64-byte encoding of a curve point.
#[derive(Debug)]
pub struct PublicKey {
    pub bytes: Vec<u8>,
}

impl View for PublicKey {
    type V = Seq<u8>;

    open spec fn view(&self) -> Seq<u8> {
        self.bytes@
    }
}

impl Clone for PublicKey {
    fn clone(&self) -> (r: Self)
        ensures
            r@ == self@,
    {
        PublicKey { bytes: self.bytes.clone() }
    }
}

/// The group parameters: a generator and an optional 32-byte salt.
#[derive(Debug)]
pub struct Parameters {
    pub generator: Vec<u8>,
    pub salt: Option<Vec<u8>>,
}

impl Parameters {
    /// What is hashed ahead of the public key: the salt, or nothing.
    pub open spec fn salt_prefix(&self) -> Seq<u8> {
        match self.salt {
            Some(s) => s@,
            None => Seq::empty(),
        }
    }
}

impl Clone for Parameters {
    fn clone(&self) -> (r: Self)
        ensures
            r.generator@ == self.generator@,
            r.salt_prefix() == self.salt_prefix(),
    {
        let salt = match &self.salt {
            Some(s) => Some(s.clone()),
            None => None,
        };
        Parameters { generator: self.generator.clone(), salt }
    }
}

/// A secret scalar together with the public key it yields.
#[derive(Debug)]
pub struct SecretKey {
    pub secret_key: Vec<u8>,
    pub public_key: PublicKey,
}

impl SecretKey {
    /// The secret scalar's encoding.
    pub fn to_bytes_le(&self) -> (r: Vec<u8>)
        ensures
            r@ == self.secret_key@,
    {
        self.secret_key.clone()
    }
}

impl Clone for SecretKey {
    fn clone(&self) -> (r: Self)
        ensures
            r.secret_key@ == self.secret_key@,
            r.public_key@ == self.public_key@,
    {
        SecretKey { secret_key: self.secret_key.clone(), public_key: self.public_key.clone() }
    }
}

/// A signature: the response scalar and the 32-byte challenge.
#[derive(Debug)]
pub struct Signature {
    pub prover_response: Vec<u8>,
    pub verifier_challenge: Vec<u8>,
}

impl Clone for Signature {
    fn clone(&self) -> (r: Self)
        ensures
            r.prover_response@ == self.prover_response@,
            r.verifier_challenge@ == self.verifier_challenge@,
    {
        Signature {
            prover_response: self.prover_response.clone(),
            verifier_challenge: self.verifier_challenge.clone(),
        }
    }
}

/// What the challenge hashes: `salt || pk || commitment || msg`.
pub open spec fn challenge_input(
    salt: Seq<u8>,
    pk: Seq<u8>,
    commitment: Seq<u8>,
    msg: Seq<u8>,
) -> Seq<u8> {
    salt + pk + commitment + msg
}

/// The challenge read as a scalar.
pub open spec fn challenge_scalar(challenge: Seq<u8>) -> Seq<u8> {
    scalar_bytes(le_value(challenge) as int)
}

/// Whether `(response, challenge)` verifies: generator and key are subgroup points, the
/// response is a scalar, and with `R' = response·G + e·pk`, where `e` is the challenge read
/// as a scalar, the challenge is the hash of `salt || pk || R' || msg`.
pub open spec fn verifies(
    generator: Seq<u8>,
    salt: Seq<u8>,
    pk: Seq<u8>,
    msg: Seq<u8>,
    response: Seq<u8>,
    challenge: Seq<u8>,
) -> bool {
    &&& valid_point(generator)
    &&& valid_point(pk)
    &&& scalar_decodes(response)
    &&& {
        let sg = curve_mul(generator, response);
        let ey = curve_mul(pk, challenge_scalar(challenge));
        &&& valid_point(sg)
        &&& valid_point(ey)
        &&& blake2s_of(challenge_input(salt, pk, curve_add(sg, ey), msg)) == challenge
    }
}

/// The signature `(k - e·x, e)` with commitment `R = k·G` and `e = H(salt || pk || R || msg)`,
/// where the generator is a subgroup point and nonce `k` and secret `x` are scalars.
pub open spec fn signature_with_nonce(
    generator: Seq<u8>,
    salt: Seq<u8>,
    pk: Seq<u8>,
    secret: Seq<u8>,
    msg: Seq<u8>,
    nonce: Seq<u8>,
) -> Option<(Seq<u8>, Seq<u8>)> {
    if valid_point(generator) && scalar_decodes(nonce) && scalar_decodes(secret) {
        let e = blake2s_of(challenge_input(salt, pk, curve_mul(generator, nonce), msg));
        let ex = scalar_bytes((scalar_value(challenge_scalar(e)) * scalar_value(secret)) as int);
        Some((scalar_bytes(scalar_value(nonce) - scalar_value(ex)), e))
    } else {
        None
    }
}

pub open spec fn sig_view(o: Option<Signature>) -> Option<(Seq<u8>, Seq<u8>)> {
    match o {
        Some(s) => Some((s.prover_response@, s.verifier_challenge@)),
        None => None,
    }
}

/// The challenge `H(salt || pk || commitment || msg)`.
fn challenge_bytes(params: &Parameters, pk: &[u8], commitment: &[u8], msg: &[u8]) -> (r: Vec<u8>)
    ensures
        r@ == blake2s_of(challenge_input(params.salt_prefix(), pk@, commitment@, msg@)),
{
    let mut input: Vec<u8> = Vec::new();
    match &params.salt {
        Some(s) => append_bytes(&mut input, s.as_slice()),
        None => {},
    }
    append_bytes(&mut input, pk);
    append_bytes(&mut input, commitment);
    append_bytes(&mut input, msg);
    assert(input@ =~= challenge_input(params.salt_prefix(), pk@, commitment@, msg@));
    blake2s(input.as_slice())
}

pub struct Schnorr;

impl Schnorr {
    /// Parameters with the curve's prime-subgroup generator and no salt.
    pub fn setup() -> (r: Parameters)
        ensures
            r.generator@ == generator_bytes(),
            valid_point(r.generator@),
            r.salt is None,
    {
        Parameters { generator: subgroup_generator(), salt: None }
    }

    /// A key pair for the secret scalar `secret`: the public key is `secret·G`. Fails exactly
    /// where the generator is not a subgroup point or `secret` is not a scalar.
    pub fn keygen_from_secret(parameters: &Parameters, secret: Vec<u8>) -> (r: Option<(PublicKey, SecretKey)>)
        ensures
            r is Some <==> valid_point(parameters.generator@) && scalar_decodes(secret@),
            match r {
                Some((pk, sk)) => pk@ == curve_mul(parameters.generator@, secret@)
                    && sk.public_key@ == pk@ && sk.secret_key@ == secret@ && pk@.len() == 64,
                None => true,
            },
    {
        if !point_decodes(&parameters.generator) || !scalar_reads(&secret) {
            return None;
        }
        let pk = PublicKey { bytes: point_mul(&parameters.generator, &secret) };
        let sk = SecretKey { secret_key: secret, public_key: pk.clone() };
        Some((pk, sk))
    }

    /// A key pair for a freshly drawn secret scalar; fails exactly where the generator
    /// is not a subgroup point.
    pub fn keygen(parameters: &Parameters, rng: &mut ark_std::rand::rngs::StdRng) -> (r: Option<(PublicKey, SecretKey)>)
        ensures
            r is Some <==> valid_point(parameters.generator@),
            match r {
                Some((pk, sk)) => pk@ == curve_mul(parameters.generator@, sk.secret_key@)
                    && sk.public_key@ == pk@ && scalar_decodes(sk.secret_key@) && pk@.len() == 64,
                None => true,
            },
    {
        let secret = random_scalar(rng);
        Self::keygen_from_secret(parameters, secret)
    }

    /// Signs `message` with the nonce `nonce`.
    pub fn sign_with_nonce(
        parameters: &Parameters,
        sk: &SecretKey,
        message: &[u8],
        nonce: &Vec<u8>,
    ) -> (r: Option<Signature>)
        ensures
            sig_view(r) == signature_with_nonce(
                parameters.generator@,
                parameters.salt_prefix(),
                sk.public_key@,
                sk.secret_key@,
                message@,
                nonce@,
            ),
    {
        if !point_decodes(&parameters.generator) || !scalar_reads(nonce) || !scalar_reads(&sk.secret_key) {
            return None;
        }
        let commitment = point_mul(&parameters.generator, nonce);
        let challenge = challenge_bytes(
            parameters,
            sk.public_key.bytes.as_slice(),
            commitment.as_slice(),
            message,
        );
        let e = reduce_to_scalar(&challenge);
        proof {
            lemma_scalar_bytes_decode(le_value(challenge@) as int);
        }
        let ex = scalar_mul(&e, &sk.secret_key);
        proof {
            lemma_scalar_bytes_decode((scalar_value(e@) * scalar_value(sk.secret_key@)) as int);
        }
        let s = scalar_sub(nonce, &ex);
        Some(Signature { prover_response: s, verifier_challenge: challenge })
    }

    /// Signs `message` with a freshly drawn nonce; succeeds exactly where the generator is a
    /// subgroup point and the secret is a scalar.
    pub fn sign(
        parameters: &Parameters,
        sk: &SecretKey,
        message: &[u8],
        rng: &mut ark_std::rand::rngs::StdRng,
    ) -> (r: Option<Signature>)
        ensures
            r is Some <==> valid_point(parameters.generator@) && scalar_decodes(sk.secret_key@),
            exists|nonce: Seq<u8>|
                scalar_decodes(nonce) && sig_view(r) == #[trigger] signature_with_nonce(
                    parameters.generator@,
                    parameters.salt_prefix(),
                    sk.public_key@,
                    sk.secret_key@,
                    message@,
                    nonce,
                ),
    {
        let nonce = random_scalar(rng);
        Self::sign_with_nonce(parameters, sk, message, &nonce)
    }

    /// Whether `signature` is a valid signature on `message` under `pk`.
    pub fn verify(parameters: &Parameters, pk: &PublicKey, message: &[u8], signature: &Signature) -> (r: bool)
        ensures
            r == verifies(
                parameters.generator@,
                parameters.salt_prefix(),
                pk@,
                message@,
                signature.prover_response@,
                signature.verifier_challenge@,
            ),
    {
        if !point_decodes(&parameters.generator) || !point_decodes(&pk.bytes)
            || !scalar_reads(&signature.prover_response) {
            return false;
        }
        let e = reduce_to_scalar(&signature.verifier_challenge);
        proof {
            lemma_scalar_bytes_decode(le_value(signature.verifier_challenge@) as int);
        }
        let sg = point_mul(&parameters.generator, &signature.prover_response);
        let ey = point_mul(&pk.bytes, &e);
        if !point_decodes(&sg) || !point_decodes(&ey) {
            return false;
        }
        let commitment = point_add(&sg, &ey);
        let obtained = challenge_bytes(
            parameters,
            pk.bytes.as_slice(),
            commitment.as_slice(),
            message,
        );
        bytes_equal(signature.verifier_challenge.as_slice(), obtained.as_slice())
    }
}

} // verus!
