use vstd::prelude::*;
use vstd::arithmetic::power2::pow2;

verus! {

/// Whether `n` is 2^k for some `k >= 0`.
pub open spec fn is_power_of_two(n: nat) -> bool
    decreases n,
{
    if n <= 1 {
        n == 1
    } else {
        n % 2 == 0 && is_power_of_two(n / 2)
    }
}

/// Column `j` of a row-major matrix of width `w` and height `h`.
pub open spec fn column(vals: Seq<u32>, w: nat, h: nat, j: nat) -> Seq<u32> {
    Seq::new(h, |i: int| vals[i * w + j])
}

/// The row-major values of the transpose: entry `(i, j)` moves to `(j, i)`.
pub open spec fn transpose_spec(vals: Seq<u32>, w: nat, h: nat) -> Seq<u32> {
    Seq::new(w * h, |n: int| vals[(n % (h as int)) * w + n / (h as int)])
}

/// Relies on p3_util::log2_strict_usize: for a power of two it returns the
/// exponent (it panics on any other input).
#[verifier::external_body]
fn log2_strict(n: usize) -> (r: usize)
    requires
        is_power_of_two(n as nat),
    ensures
        pow2(r as nat) == n,
{
    p3_util::log2_strict_usize(n)
}

/// Relies on p3_matrix's RowMajorMatrix::transpose: the entry at row `i`,
/// column `j` moves to row `j`, column `i`.
#[verifier::external_body]
pub(crate) fn transpose_values(values: Vec<u32>, width: usize) -> (r: Vec<u32>)
    requires
        width > 0,
        values@.len() > 0,
        values@.len() % (width as nat) == 0,
    ensures
        r@ == transpose_spec(values@, width as nat, values@.len() / (width as nat)),
{
    p3_matrix::dense::RowMajorMatrix::new(values, width).transpose().values
}

/// A dense matrix of canonical residues, stored row by row.
#[derive(Debug, Clone, PartialEq, Eq)]
pub struct RowMajorMatrix {
    pub values: Vec<u32>,
    pub width: usize,
}

impl RowMajorMatrix {
    pub open spec fn height_spec(&self) -> nat {
        self.values@.len() / (self.width as nat)
    }

    /// Non-empty, rectangular, and of power-of-two height.
    pub open spec fn wf(&self) -> bool {
        &&& self.width > 0
        &&& self.values@.len() > 0
        &&& self.values@.len() % (self.width as nat) == 0
        &&& is_power_of_two(self.height_spec())
    }

    pub fn width(&self) -> (r: usize)
        ensures
            r == self.width,
    {
        self.width
    }

    pub fn height(&self) -> (r: usize)
        requires
            self.width > 0,
        ensures
            r == self.height_spec(),
    {
        self.values.len() / self.width
    }

    /// The matrix of these values and this width, or `None` where they do not
    /// form a non-empty matrix of power-of-two height.
    pub fn new(values: Vec<u32>, width: usize) -> (r: Option<RowMajorMatrix>)
        ensures
            r is Some <==> (width > 0 && values@.len() > 0 && values@.len() % (width as nat) == 0
                && is_power_of_two(values@.len() / (width as nat))),
            r matches Some(m) ==> m.values@ == values@ && m.width == width && m.wf(),
    {
        if width == 0 || values.len() == 0 || values.len() % width != 0 {
            return None;
        }
        let h = values.len() / width;
        if !power_of_two(h) {
            return None;
        }
        Some(RowMajorMatrix { values, width })
    }

    /// The exponent `k` of the height 2^k.
    pub fn log_height(&self) -> (r: usize)
        requires
            self.wf(),
        ensures
            pow2(r as nat) == self.height_spec(),
    {
        log2_strict(self.height())
    }

    /// The transpose: height and width swap, and entry `(i, j)` moves to `(j, i)`.
    pub fn transpose(&self) -> (r: RowMajorMatrix)
        requires
            self.wf(),
        ensures
            r.width == self.height_spec(),
            r.values@ == transpose_spec(self.values@, self.width as nat, self.height_spec()),
    {
        let h = self.height();
        RowMajorMatrix { values: transpose_values(self.values.clone(), self.width), width: h }
    }
}

/// Whether `n` is a power of two.
pub fn power_of_two(n: usize) -> (r: bool)
    ensures
        r == is_power_of_two(n as nat),
{
    let mut m: usize = n;
    while m > 1 && m % 2 == 0
        invariant
            is_power_of_two(m as nat) == is_power_of_two(n as nat),
        decreases m,
    {
        m = m / 2;
    }
    m == 1
}

} // verus!
