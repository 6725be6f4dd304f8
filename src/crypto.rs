//! Calls into the Jubjub curve, its scalar field and Blake2s. Points travel as
//! their 64-byte affine encoding (x then y, each 32 bytes little-endian) and
//! scalars as their 32-byte little-endian encoding. Curve operations are called only
//! on encodings that `point_decodes` accepts.

use ark_ec::{AffineCurve, ProjectiveCurve};
use ark_ed_on_bls12_381::{EdwardsAffine, Fr};
use ark_ff::{BigInteger, FromBytes, PrimeField, ToBytes, UniformRand};
use digest::Digest;
use crate::amount::{le_bytes, le_value, lemma_le_bytes_len, lemma_le_round_trip};
use vstd::arithmetic::power2::pow2;
use vstd::prelude::*;

verus! {

#[verifier::external_type_specification]
#[verifier::external_body]
pub struct ExStdRng(ark_std::rand::rngs::StdRng);

/// Whether `bytes` encode a point of the curve that lies in its prime-order subgroup.
pub uninterp spec fn valid_point(bytes: Seq<u8>) -> bool;

/// The encoding of `scalar · point`.
pub uninterp spec fn curve_mul(point: Seq<u8>, scalar: Seq<u8>) -> Seq<u8>;

/// The encoding of `a + b`.
pub uninterp spec fn curve_add(a: Seq<u8>, b: Seq<u8>) -> Seq<u8>;

/// The 32-byte Blake2s digest of `input`.
pub uninterp spec fn blake2s_of(input: Seq<u8>) -> Seq<u8>;

/// The order of the prime subgroup, the modulus of the scalar field.
pub open spec fn scalar_order() -> nat {
    0xe7db4ea6533afa906673b0101343b00 * (0x1_0000_0000_0000_0000 * 0x1_0000_0000_0000_0000)
        + 0xa6682093ccc81082d0970e5ed6f72cb7
}

/// Whether `bytes` begin with the 32-byte little-endian encoding of a scalar below the order.
pub open spec fn scalar_decodes(bytes: Seq<u8>) -> bool {
    bytes.len() >= 32 && le_value(bytes.subrange(0, 32)) < scalar_order()
}

/// The scalar whose encoding `bytes` begin with.
pub open spec fn scalar_value(bytes: Seq<u8>) -> nat {
    le_value(bytes.subrange(0, 32))
}

/// The encoding of the scalar congruent to `v`.
pub open spec fn scalar_bytes(v: int) -> Seq<u8> {
    le_bytes((v % (scalar_order() as int)) as nat, 32)
}

/// The encoding of the curve's prime-subgroup generator: x, then y.
pub open spec fn generator_bytes() -> Seq<u8> {
    seq![43, 18, 209, 146, 20, 7, 107, 62, 98, 114, 31, 125, 253, 106, 47, 231, 59, 61, 191, 159, 185, 101, 163, 134, 128, 33, 225, 35, 93, 254, 218, 17, 170, 146, 210, 89, 14, 135, 63, 204, 215, 254, 32, 194, 92, 186, 38, 62, 195, 192, 102, 200, 120, 46, 19, 147, 23, 26, 171, 221, 241, 60, 82, 29]
}

/// An encoded scalar decodes to the number it was made from, reduced.
pub proof fn lemma_scalar_bytes_decode(v: int)
    ensures
        scalar_decodes(scalar_bytes(v)),
        scalar_value(scalar_bytes(v)) == v % (scalar_order() as int),
{
    let m = (v % (scalar_order() as int)) as nat;
    lemma_le_bytes_len(m, 32);
    assert(scalar_bytes(v).subrange(0, 32) =~= scalar_bytes(v));
    reveal_with_fuel(crate::amount::pow256, 33);
    lemma_le_round_trip(m, 32);
}

/// Relies on `FromBytes` for Jubjub affine points, `GroupAffine::is_on_curve` and
/// `is_in_correct_subgroup_assuming_on_curve`.
#[verifier::external_body]
pub(crate) fn point_decodes(bytes: &Vec<u8>) -> (r: bool)
    ensures
        r == valid_point(bytes@),
{
    match EdwardsAffine::read(&bytes[..]) {
        Ok(p) => p.is_on_curve() && p.is_in_correct_subgroup_assuming_on_curve(),
        Err(_) => false,
    }
}

/// Relies on `FromBytes` for the Jubjub scalar field: 32 little-endian bytes, below the order.
#[verifier::external_body]
pub(crate) fn scalar_reads(bytes: &Vec<u8>) -> (r: bool)
    ensures
        r == scalar_decodes(bytes@),
{
    Fr::read(&bytes[..]).is_ok()
}

/// Relies on `AffineCurve::mul` and `ProjectiveCurve::into_affine` of Jubjub, with
/// `FromBytes`/`ToBytes` of its affine points (64 bytes) and scalars.
#[verifier::external_body]
pub(crate) fn point_mul(point: &Vec<u8>, scalar: &Vec<u8>) -> (r: Vec<u8>)
    requires
        valid_point(point@),
        scalar_decodes(scalar@),
    ensures
        r@ == curve_mul(point@, scalar@),
        r@.len() == 64,
{
    let mut out = Vec::new();
    if let (Ok(p), Ok(k)) = (EdwardsAffine::read(&point[..]), Fr::read(&scalar[..])) {
        let _ = p.mul(k).into_affine().write(&mut out);
    }
    out
}

/// Relies on the addition of Jubjub affine points, with their `FromBytes`/`ToBytes`.
#[verifier::external_body]
pub(crate) fn point_add(a: &Vec<u8>, b: &Vec<u8>) -> (r: Vec<u8>)
    requires
        valid_point(a@),
        valid_point(b@),
    ensures
        r@ == curve_add(a@, b@),
        r@.len() == 64,
{
    let mut out = Vec::new();
    if let (Ok(p), Ok(q)) = (EdwardsAffine::read(&a[..]), EdwardsAffine::read(&b[..])) {
        let _ = (p + &q).write(&mut out);
    }
    out
}

/// Relies on `PrimeField::from_le_bytes_mod_order` of the Jubjub scalar field.
#[verifier::external_body]
pub(crate) fn reduce_to_scalar(bytes: &Vec<u8>) -> (r: Vec<u8>)
    ensures
        r@ == scalar_bytes(le_value(bytes@) as int),
{
    Fr::from_le_bytes_mod_order(&bytes[..]).into_repr().to_bytes_le()
}

/// Relies on multiplication in the Jubjub scalar field, with `FromBytes` of its elements.
#[verifier::external_body]
pub(crate) fn scalar_mul(a: &Vec<u8>, b: &Vec<u8>) -> (r: Vec<u8>)
    requires
        scalar_decodes(a@),
        scalar_decodes(b@),
    ensures
        r@ == scalar_bytes((scalar_value(a@) * scalar_value(b@)) as int),
{
    match (Fr::read(&a[..]), Fr::read(&b[..])) {
        (Ok(x), Ok(y)) => (x * y).into_repr().to_bytes_le(),
        _ => Vec::new(),
    }
}

/// Relies on subtraction in the Jubjub scalar field, with `FromBytes` of its elements.
#[verifier::external_body]
pub(crate) fn scalar_sub(a: &Vec<u8>, b: &Vec<u8>) -> (r: Vec<u8>)
    requires
        scalar_decodes(a@),
        scalar_decodes(b@),
    ensures
        r@ == scalar_bytes(scalar_value(a@) - scalar_value(b@)),
{
    match (Fr::read(&a[..]), Fr::read(&b[..])) {
        (Ok(x), Ok(y)) => (x - y).into_repr().to_bytes_le(),
        _ => Vec::new(),
    }
}

/// Relies on `UniformRand` for the Jubjub scalar field: a uniformly drawn scalar, encoded
/// in 32 bytes below the order.
#[verifier::external_body]
pub(crate) fn random_scalar(rng: &mut ark_std::rand::rngs::StdRng) -> (r: Vec<u8>)
    ensures
        r@.len() == 32,
        scalar_decodes(r@),
{
    Fr::rand(rng).into_repr().to_bytes_le()
}

/// Relies on `AffineCurve::prime_subgroup_generator` of Jubjub (the constants
/// `GENERATOR_X`, `GENERATOR_Y`), encoded with `ToBytes`; it generates the prime subgroup.
#[verifier::external_body]
pub(crate) fn subgroup_generator() -> (r: Vec<u8>)
    ensures
        r@ == generator_bytes(),
        valid_point(r@),
{
    let mut out = Vec::new();
    let _ = EdwardsAffine::prime_subgroup_generator().write(&mut out);
    out
}

/// Relies on `Digest::digest` of `blake2::Blake2s`, whose output is 32 bytes.
#[verifier::external_body]
pub(crate) fn blake2s(input: &[u8]) -> (r: Vec<u8>)
    ensures
        r@ == blake2s_of(input@),
        r@.len() == 32,
{
    blake2::Blake2s::digest(input).to_vec()
}

/// Relies on `ark_std::log2`: the ceiling of the base-2 logarithm, 0 for 0.
#[verifier::external_body]
pub(crate) fn ceil_log2(x: usize) -> (r: u32)
    ensures
        r <= 64,
        x <= 1 ==> r == 0,
        x >= 1 ==> pow2(r as nat) >= x,
        x >= 2 ==> pow2((r - 1) as nat) < x,
{
    ark_std::log2(x)
}

} // verus!
