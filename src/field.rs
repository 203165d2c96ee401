use vstd::prelude::*;

verus! {

/// The BabyBear prime, 15 * 2^27 + 1.
pub const P: u32 = 2013265921;

/// The largest `k` such that 2^k divides `P - 1`.
pub const TWO_ADICITY: usize = 27;

/// A generator of the multiplicative subgroup of order 2^27.
pub const TWO_ADIC_ROOT: u32 = 0x1a427a41;

/// `b^e mod p`, by repeated multiplication.
pub open spec fn pow_mod(b: int, e: nat, p: int) -> int
    decreases e,
{
    if e == 0 {
        1int % p
    } else {
        (pow_mod(b, (e - 1) as nat, p) * b) % p
    }
}

/// `b` squared `n` times, reducing modulo `p` after each step.
pub open spec fn square_n(b: int, n: nat, p: int) -> int
    decreases n,
{
    if n == 0 {
        b % p
    } else {
        let s = square_n(b, (n - 1) as nat, p);
        (s * s) % p
    }
}

/// The root of unity of order 2^bits that the field hands out.
pub open spec fn two_adic_generator_spec(bits: nat) -> int {
    square_n(TWO_ADIC_ROOT as int, (TWO_ADICITY - bits) as nat, P as int)
}

/// `a * b mod p` without overflow.
pub fn mul_mod(a: u32, b: u32, p: u32) -> (r: u32)
    requires
        p > 0,
    ensures
        r as int == (a as int * b as int) % (p as int),
        r < p,
{
    proof {
        assert(a as int * b as int <= u32::MAX as int * u32::MAX as int) by (nonlinear_arith)
            requires
                a <= u32::MAX,
                b <= u32::MAX,
        ;
    }
    let prod: u64 = a as u64 * b as u64;
    (prod % (p as u64)) as u32
}

/// `a + b mod p` without overflow.
pub fn add_mod(a: u32, b: u32, p: u32) -> (r: u32)
    requires
        p > 0,
    ensures
        r as int == (a as int + b as int) % (p as int),
        r < p,
{
    let sum: u64 = a as u64 + b as u64;
    (sum % (p as u64)) as u32
}

/// An element of the BabyBear field, held as its canonical residue.
#[derive(Debug, Clone, Copy, PartialEq, Eq, Structural, Hash)]
pub struct BabyBear {
    pub value: u32,
}

impl BabyBear {
    pub open spec fn wf(&self) -> bool {
        self.value < P
    }

    /// The element whose residue is `v mod P`; any `u32` is accepted.
    pub fn from_wrapped_u32(v: u32) -> (r: BabyBear)
        ensures
            r.wf(),
            r.value == v % P,
    {
        BabyBear { value: v % P }
    }

    /// The element with residue `v`, which must already be canonical.
    pub fn from_canonical_u32(v: u32) -> (r: BabyBear)
        requires
            v < P,
        ensures
            r.wf(),
            r.value == v,
    {
        BabyBear { value: v }
    }

    /// The canonical residue, in `[0, P)`.
    pub fn as_canonical_u32(&self) -> (r: u32)
        requires
            self.wf(),
        ensures
            r == self.value,
            r < P,
    {
        self.value
    }

    /// The root of unity of order 2^bits: the subgroup generator of order
    /// 2^27 squared `27 - bits` times.
    pub fn two_adic_generator(bits: usize) -> (r: BabyBear)
        requires
            bits <= TWO_ADICITY,
        ensures
            r.wf(),
            r.value as int == two_adic_generator_spec(bits as nat),
    {
        let mut g: u32 = TWO_ADIC_ROOT % P;
        let mut i: usize = 0;
        let n: usize = TWO_ADICITY - bits;
        while i < n
            invariant
                i <= n,
                n == TWO_ADICITY - bits,
                g < P,
                g as int == square_n(TWO_ADIC_ROOT as int, i as nat, P as int),
            decreases n - i,
        {
            g = mul_mod(g, g, P);
            i = i + 1;
        }
        BabyBear { value: g }
    }
}

} // verus!
