use vstd::prelude::*;

verus! {

/// The `n` low-order bytes of `v`, least significant first.
pub open spec fn le_bytes(v: nat, n: nat) -> Seq<u8>
    decreases n,
{
    if n == 0 {
        Seq::empty()
    } else {
        seq![(v % 256) as u8] + le_bytes(v / 256, (n - 1) as nat)
    }
}

/// Amounts of money and account balances.
#[derive(Clone, Copy, Debug, PartialEq, Eq, Structural, PartialOrd, Ord, Hash)]
pub struct Amount(pub u64);

impl Amount {
    /// The eight little-endian bytes of `v`.
    pub open spec fn bytes_of(v: u64) -> Seq<u8> {
        le_bytes(v as nat, 8)
    }

    /// Eight bytes, least significant first.
    pub fn to_bytes_le(&self) -> (r: Vec<u8>)
        ensures
            r@ == Self::bytes_of(self.0),
            r@.len() == 8,
    {
        let mut out: Vec<u8> = Vec::new();
        let mut rest: u64 = self.0;
        let mut i: usize = 0;
        while i < 8
            invariant
                0 <= i <= 8,
                out@ + le_bytes(rest as nat, (8 - i) as nat) == le_bytes(self.0 as nat, 8),
            decreases 8 - i,
        {
            proof {
                reveal_with_fuel(le_bytes, 2);
            }
            let byte = (rest % 256) as u8;
            out.push(byte);
            rest = rest / 256;
            i = i + 1;
            assert(out@ + le_bytes(rest as nat, (8 - i) as nat) == le_bytes(self.0 as nat, 8)) by {
                assert(out@ == out@.drop_last().push(byte));
                assert(out@ + le_bytes(rest as nat, (8 - i) as nat) =~= out@.drop_last() + (seq![byte]
                    + le_bytes(rest as nat, (8 - i) as nat)));
            }
        }
        proof {
            assert(le_bytes(rest as nat, 0) =~= Seq::<u8>::empty());
            assert(out@ =~= out@ + le_bytes(rest as nat, 0));
            lemma_le_bytes_len(self.0 as nat, 8);
        }
        out
    }

    /// The amount spelled by eight little-endian bytes.
    pub fn from_bytes_le(bytes: &[u8]) -> (r: Option<Self>)
        ensures
            bytes@.len() == 8 ==> r is Some && r->Some_0.0 as nat == le_value(bytes@),
            bytes@.len() != 8 ==> r is None,
    {
        if bytes.len() != 8 {
            return None;
        }
        let mut acc: u64 = 0;
        let mut i: usize = 8;
        proof {
            reveal_with_fuel(pow256, 8);
            assert(pow256(7) == 0x100000000000000);
        }
        while i > 0
            invariant
                0 <= i <= 8,
                bytes@.len() == 8,
                acc as nat == le_value(bytes@.subrange(i as int, 8)),
                acc < pow256((8 - i) as nat),
                pow256(7) == 0x100000000000000,
            decreases i,
        {
            let b = bytes[i - 1];
            proof {
                let t = bytes@.subrange(i - 1, 8);
                assert(t.drop_first() =~= bytes@.subrange(i as int, 8));
                assert(pow256((8 - i) as nat) <= pow256(7)) by {
                    lemma_pow256_mono((8 - i) as nat, 7);
                }
            }
            acc = acc * 256 + b as u64;
            i = i - 1;
            proof {
                lemma_le_value_bound(bytes@.subrange(i as int, 8));
            }
        }
        assert(bytes@.subrange(0, 8) =~= bytes@);
        Some(Amount(acc))
    }

    /// The sum, or `None` where it does not fit in 64 bits.
    pub fn checked_add(self, other: Self) -> (r: Option<Self>)
        ensures
            r == (if self.0 + other.0 <= u64::MAX {
                Some(Amount((self.0 + other.0) as u64))
            } else {
                None::<Amount>
            }),
    {
        match self.0.checked_add(other.0) {
            Some(v) => Some(Amount(v)),
            None => None,
        }
    }

    /// The difference, or `None` where `other` exceeds `self`.
    pub fn checked_sub(self, other: Self) -> (r: Option<Self>)
        ensures
            r == (if other.0 <= self.0 {
                Some(Amount((self.0 - other.0) as u64))
            } else {
                None::<Amount>
            }),
    {
        match self.0.checked_sub(other.0) {
            Some(v) => Some(Amount(v)),
            None => None,
        }
    }
}

/// The number that the little-endian bytes `s` spell.
pub open spec fn le_value(s: Seq<u8>) -> nat
    decreases s.len(),
{
    if s.len() == 0 {
        0
    } else {
        s[0] as nat + 256 * le_value(s.drop_first())
    }
}

pub open spec fn pow256(n: nat) -> nat
    decreases n,
{
    if n == 0 {
        1
    } else {
        256 * pow256((n - 1) as nat)
    }
}

pub proof fn lemma_pow256_mono(a: nat, b: nat)
    requires
        a <= b,
    ensures
        pow256(a) <= pow256(b),
    decreases b,
{
    if a < b {
        lemma_pow256_mono(a, (b - 1) as nat);
    }
}

pub proof fn lemma_le_value_bound(s: Seq<u8>)
    ensures
        le_value(s) < pow256(s.len()),
    decreases s.len(),
{
    if s.len() > 0 {
        lemma_le_value_bound(s.drop_first());
        let a = s[0] as nat;
        let b = le_value(s.drop_first());
        let p = pow256((s.len() - 1) as nat);
        assert(a + 256 * b < 256 * p) by (nonlinear_arith)
            requires
                a < 256,
                b < p,
        ;
    }
}

pub proof fn lemma_le_round_trip(v: nat, n: nat)
    requires
        v < pow256(n),
    ensures
        le_value(le_bytes(v, n)) == v,
    decreases n,
{
    if n > 0 {
        let p = pow256((n - 1) as nat);
        assert(v / 256 < p) by (nonlinear_arith)
            requires
                v < 256 * p,
        ;
        lemma_le_round_trip(v / 256, (n - 1) as nat);
        let s = le_bytes(v, n);
        assert(s.drop_first() =~= le_bytes(v / 256, (n - 1) as nat));
        assert(v == v % 256 + 256 * (v / 256)) by (nonlinear_arith);
    } else {
        assert(pow256(0) == 1);
    }
}

pub proof fn lemma_le_bytes_len(v: nat, n: nat)
    ensures
        le_bytes(v, n).len() == n,
    decreases n,
{
    if n > 0 {
        lemma_le_bytes_len(v / 256, (n - 1) as nat);
    }
}

} // verus!
