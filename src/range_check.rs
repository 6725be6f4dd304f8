//! The arithmetic behind the in-circuit balance checks. Amounts are lifted into the
//! scalar field of BLS12-381, added or subtracted there, and the 32-byte
//! little-endian encoding of the result is inspected: after an addition the byte
//! above the low 64 bits must be zero, after a subtraction the top byte must be.
//! These laws show that each check accepts exactly the native checked operation.

use crate::amount::{le_bytes, pow256};
use vstd::arithmetic::div_mod::{
    lemma_div_denominator, lemma_fundamental_div_mod_converse, lemma_mod_add_multiples_vanish,
    lemma_small_mod,
};
use vstd::prelude::*;

verus! {

/// Index of the byte that holds bits 64 to 71 of an encoded field element.
pub const OVERFLOW_BYTE: usize = 8;

/// Index of the top byte of an encoded field element.
pub const UNDERFLOW_BYTE: usize = 31;

/// Length of an encoded field element.
pub const FIELD_BYTES: usize = 32;

/// The modulus of the BLS12-381 scalar field.
pub open spec fn field_modulus() -> nat {
    0x73eda753299d7d483339d80809a1d805 * (0x1_0000_0000_0000_0000 * 0x1_0000_0000_0000_0000)
        + 0x53bda402fffe5bfeffffffff00000001
}

/// `a - b` in the field, as a number below the modulus.
pub open spec fn field_sub(a: u64, b: u64) -> nat {
    ((a as int - b as int) % (field_modulus() as int)) as nat
}

/// `a + b` in the field, as a number below the modulus.
pub open spec fn field_add(a: u64, b: u64) -> nat {
    ((a as int + b as int) % (field_modulus() as int)) as nat
}

/// Byte `k` of the little-endian encoding of `x` is `x / 256^k mod 256`.
pub proof fn lemma_le_byte(x: nat, n: nat, k: nat)
    requires
        k < n,
    ensures
        le_bytes(x, n)[k as int] == ((x / pow256(k)) % 256) as u8,
    decreases k,
{
    if k > 0 {
        lemma_le_byte(x / 256, (n - 1) as nat, (k - 1) as nat);
        crate::amount::lemma_le_bytes_len(x / 256, (n - 1) as nat);
        assert(pow256(k) == 256 * pow256((k - 1) as nat));
        lemma_pow256_positive((k - 1) as nat);
        lemma_div_denominator(x as int, 256, pow256((k - 1) as nat) as int);
        assert(le_bytes(x, n) == seq![(x % 256) as u8] + le_bytes(x / 256, (n - 1) as nat));
        assert(le_bytes(x, n)[k as int] == le_bytes(x / 256, (n - 1) as nat)[k - 1]);
    } else {
        assert(pow256(0) == 1);
        assert(le_bytes(x, n) == seq![(x % 256) as u8] + le_bytes(x / 256, (n - 1) as nat));
    }
}

proof fn lemma_pow256_positive(n: nat)
    ensures
        pow256(n) > 0,
    decreases n,
{
    if n > 0 {
        lemma_pow256_positive((n - 1) as nat);
    }
}

proof fn lemma_pow256_values()
    ensures
        pow256(8) == 0x1_0000_0000_0000_0000,
        pow256(31) == 0x1000_0000_0000_0000_0000_0000_0000_0000 * 0x1000_0000_0000_0000_0000_0000_0000_0000,
{
    reveal_with_fuel(pow256, 32);
}

/// The subtraction check: the top byte of the encoding of `a - b` is zero exactly when
/// `b <= a`, and then the low 64 bits are the difference.
pub proof fn lemma_underflow_check(a: u64, b: u64)
    ensures
        (le_bytes(field_sub(a, b), FIELD_BYTES as nat)[UNDERFLOW_BYTE as int] == 0) <==> b <= a,
        b <= a ==> field_sub(a, b) % 0x1_0000_0000_0000_0000 == a - b,
{
    lemma_le_byte(field_sub(a, b), FIELD_BYTES as nat, UNDERFLOW_BYTE as nat);
    crate::amount::lemma_le_bytes_len(field_sub(a, b), FIELD_BYTES as nat);
    lemma_pow256_values();
    let p = field_modulus() as int;
    let d = a as int - b as int;
    if b <= a {
        lemma_small_mod(d as nat, p as nat);
        assert(d % p == d);
        lemma_fundamental_div_mod_converse(d, pow256(31) as int, 0, d);
    } else {
        lemma_mod_add_multiples_vanish(d, p);
        lemma_small_mod((p + d) as nat, p as nat);
        assert(d % p == p + d);
        lemma_fundamental_div_mod_converse(p + d, pow256(31) as int, 115, p + d - 115 * pow256(31));
    }
}

/// The addition check: the byte above the low 64 bits of the encoding of `a + b` is zero
/// exactly when the sum fits in 64 bits.
pub proof fn lemma_overflow_check(a: u64, b: u64)
    ensures
        (le_bytes(field_add(a, b), FIELD_BYTES as nat)[OVERFLOW_BYTE as int] == 0) <==> a + b <= u64::MAX,
        a + b <= u64::MAX ==> field_add(a, b) == a + b,
{
    lemma_le_byte(field_add(a, b), FIELD_BYTES as nat, OVERFLOW_BYTE as nat);
    crate::amount::lemma_le_bytes_len(field_add(a, b), FIELD_BYTES as nat);
    lemma_pow256_values();
    let s = a as int + b as int;
    lemma_small_mod(s as nat, field_modulus());
    assert(s % (field_modulus() as int) == s);
    if s <= u64::MAX {
        lemma_fundamental_div_mod_converse(s, pow256(8) as int, 0, s);
    } else {
        lemma_fundamental_div_mod_converse(s, pow256(8) as int, 1, s - pow256(8));
    }
}

} // verus!
