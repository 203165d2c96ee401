use vstd::prelude::*;
use vstd::arithmetic::power2::{lemma_pow2_strictly_increases, pow2};
use crate::codec::AcceleratorElement;
use crate::domain::{DomainSession, Phase};
use crate::error::DftError;
use crate::field::{two_adic_generator_spec, BabyBear, P, TWO_ADICITY};
use crate::layout::{descriptor_for, finish, finish_spec, prepare, prepare_spec, BatchDescriptor, Layout};
use crate::matrix::RowMajorMatrix;
use crate::transform::{as_ints, dft_batch_spec, dft_batch_values};

verus! {

/// The exponent of a power-of-two height, checked against the largest
/// subgroup of two-power order that the field has.
fn checked_log_height(mat: &RowMajorMatrix) -> (r: Result<usize, DftError>)
    requires
        mat.wf(),
    ensures
        r is Ok <==> mat.height_spec() <= pow2(TWO_ADICITY as nat),
        r is Err ==> r == Err::<usize, DftError>(DftError::UnsupportedSize),
        r matches Ok(k) ==> k <= TWO_ADICITY && pow2(k as nat) == mat.height_spec(),
{
    let log_h = mat.log_height();
    if log_h > TWO_ADICITY {
        proof {
            lemma_pow2_strictly_increases(TWO_ADICITY as nat, log_h as nat);
        }
        Err(DftError::UnsupportedSize)
    } else {
        proof {
            if log_h < TWO_ADICITY {
                lemma_pow2_strictly_increases(log_h as nat, TWO_ADICITY as nat);
            }
        }
        Ok(log_h)
    }
}

/// The forward transform of every column of `mat` over the subgroup of order
/// its height, computed on the host by direct evaluation; the result that an
/// accelerated transform must match. Heights beyond the field's two-adic
/// subgroup are refused.
pub fn reference_dft_batch(mat: &RowMajorMatrix) -> (r: Result<RowMajorMatrix, DftError>)
    requires
        mat.wf(),
    ensures
        r is Ok <==> mat.height_spec() <= pow2(TWO_ADICITY as nat),
        r is Err ==> r == Err::<RowMajorMatrix, DftError>(DftError::UnsupportedSize),
        r matches Ok(m) ==> m.width == mat.width && forall|k: nat| pow2(k) == mat.height_spec() ==> as_ints(m.values@)
            == dft_batch_spec(mat.values@, mat.width as nat, two_adic_generator_spec(k), P as int),
{
    let log_h = checked_log_height(mat)?;
    let root = BabyBear::two_adic_generator(log_h);
    let values = dft_batch_values(&mat.values, mat.width, root.value, P);
    proof {
        assert forall|k: nat| pow2(k) == mat.height_spec() implies k == log_h by {
            if k < log_h {
                lemma_pow2_strictly_increases(k, log_h as nat);
            } else if k > log_h {
                lemma_pow2_strictly_increases(log_h as nat, k);
            }
        }
    }
    Ok(RowMajorMatrix { values, width: mat.width })
}

/// Whether two sequences of residues are equal.
fn same_values(a: &Vec<u32>, b: &Vec<u32>) -> (r: bool)
    ensures
        r == (as_ints(a@) == as_ints(b@)),
{
    if a.len() != b.len() {
        assert(as_ints(a@).len() != as_ints(b@).len());
        return false;
    }
    let mut i: usize = 0;
    while i < a.len()
        invariant
            a@.len() == b@.len(),
            i <= a@.len(),
            forall|t: int| 0 <= t < i ==> a@[t] == b@[t],
        decreases a@.len() - i,
    {
        if a[i] != b[i] {
            assert(as_ints(a@)[i as int] != as_ints(b@)[i as int]);
            return false;
        }
        i = i + 1;
    }
    assert(as_ints(a@) =~= as_ints(b@));
    true
}

/// Whether `output` is exactly the reference transform of `input`, which
/// tells whether an accelerator used the same root of unity, layout and
/// decoding.
pub fn matches_reference(input: &RowMajorMatrix, output: &RowMajorMatrix) -> (r: Result<bool, DftError>)
    requires
        input.wf(),
    ensures
        r is Ok <==> input.height_spec() <= pow2(TWO_ADICITY as nat),
        r is Err ==> r == Err::<bool, DftError>(DftError::UnsupportedSize),
        r matches Ok(b) ==> (b <==> (output.width == input.width && forall|k: nat| pow2(k) == input.height_spec()
            ==> as_ints(output.values@) == dft_batch_spec(input.values@, input.width as nat, two_adic_generator_spec(k), P as int))),
{
    let log_h = checked_log_height(input)?;
    let expected = reference_dft_batch(input)?;
    let same = same_values(&output.values, &expected.values);
    proof {
        assert(pow2(log_h as nat) == input.height_spec());
    }
    Ok(output.width == input.width && same)
}

/// A matrix encoded for the accelerator, with what the call needs to know.
pub struct PreparedBatch {
    /// The root of unity whose powers the transform evaluates at.
    pub root: BabyBear,
    pub buffer: Vec<AcceleratorElement>,
    pub descriptor: BatchDescriptor,
    pub height: usize,
    pub width: usize,
}

/// Forward transforms on an accelerator that takes the row-major storage
/// as a batch of column-strided sequences, over a domain that the caller
/// establishes from the field's root of unity and releases afterwards.
#[derive(Debug, Default, Clone, Copy)]
pub struct BabyBearIcicleDft;

impl BabyBearIcicleDft {
    pub fn layout(&self) -> (r: Layout)
        ensures
            r == Layout::ColumnStrided,
    {
        Layout::ColumnStrided
    }

    /// Starts a transform of `mat`: asks `session` for the domain of the
    /// matrix's height and encodes the matrix, column-strided, one sequence
    /// per column.
    pub fn prepare(&self, mat: &RowMajorMatrix, session: &mut DomainSession) -> (r: Result<PreparedBatch, DftError>)
        requires
            mat.wf(),
            old(session).wf(),
        ensures
            final(session).wf(),
            final(session).established == old(session).established,
            final(session).released == old(session).released,
            r is Ok <==> (old(session).phase == Phase::Idle && mat.height_spec() <= pow2(TWO_ADICITY as nat)),
            old(session).phase != Phase::Idle ==> r == Err::<PreparedBatch, DftError>(DftError::DomainBusy),
            old(session).phase == Phase::Idle && mat.height_spec() > pow2(TWO_ADICITY as nat)
                ==> r == Err::<PreparedBatch, DftError>(DftError::UnsupportedSize),
            r is Err ==> *final(session) == *old(session),
            r matches Ok(b) ==> {
                &&& b.buffer@ == prepare_spec(mat.values@, mat.width as nat, Layout::ColumnStrided)
                &&& b.descriptor == descriptor_for(Layout::ColumnStrided, mat.width)
                &&& b.height == mat.height_spec()
                &&& b.width == mat.width
                &&& b.root.wf()
                &&& exists|k: nat| #![auto] pow2(k) == mat.height_spec() && final(session).phase == (Phase::Establishing { log_h: k as usize })
                    && b.root.value == two_adic_generator_spec(k)
            },
    {
        if session.phase != Phase::Idle {
            return Err(DftError::DomainBusy);
        }
        let log_h = checked_log_height(mat)?;
        let root = match session.request(log_h) {
            Ok(root) => root,
            Err(e) => return Err(e),
        };
        let (buffer, descriptor) = prepare(mat, Layout::ColumnStrided);
        let height = mat.height();
        proof {
            assert(pow2(log_h as nat) == mat.height_spec() && session.phase == (Phase::Establishing { log_h: (log_h as nat) as usize }));
        }
        Ok(PreparedBatch { root, buffer, descriptor, height, width: mat.width })
    }

    /// Reads the transformed buffer back into an `height` by `width` matrix
    /// of canonical residues.
    pub fn finish(&self, buffer: &Vec<AcceleratorElement>, height: usize, width: usize) -> (r: Result<RowMajorMatrix, DftError>)
        requires
            height > 0,
            width > 0,
        ensures
            r is Err <==> buffer@.len() != height * width,
            r is Err ==> r == Err::<RowMajorMatrix, DftError>(DftError::LayoutMismatch),
            r matches Ok(m) ==> m.width == width && m.values@ == finish_spec(
                buffer@, descriptor_for(Layout::ColumnStrided, width), height as nat, width as nat),
    {
        finish(buffer, BatchDescriptor { batch_size: width, columns_batch: true }, height, width)
    }
}

/// Forward transforms on an accelerator that takes contiguous sequences
/// only: the matrix is transposed so that each column becomes a row, each
/// row is transformed in natural order, and the result is transposed back.
#[derive(Debug, Default, Clone, Copy)]
pub struct BabyBearSpparkDft;

impl BabyBearSpparkDft {
    pub fn layout(&self) -> (r: Layout)
        ensures
            r == Layout::RowContiguous,
    {
        Layout::RowContiguous
    }

    /// Encodes `mat` transposed: sequence `k`, column `k` of the matrix,
    /// fills positions `k * height` up to `(k + 1) * height`.
    pub fn prepare(&self, mat: &RowMajorMatrix) -> (r: (Vec<AcceleratorElement>, BatchDescriptor))
        requires
            mat.wf(),
        ensures
            r.0@ == prepare_spec(mat.values@, mat.width as nat, Layout::RowContiguous),
            r.1 == descriptor_for(Layout::RowContiguous, mat.width),
    {
        prepare(mat, Layout::RowContiguous)
    }

    /// Reads the transformed rows back, transposed, into an `height` by
    /// `width` matrix of canonical residues.
    pub fn finish(&self, buffer: &Vec<AcceleratorElement>, height: usize, width: usize) -> (r: Result<RowMajorMatrix, DftError>)
        requires
            height > 0,
            width > 0,
        ensures
            r is Err <==> buffer@.len() != height * width,
            r is Err ==> r == Err::<RowMajorMatrix, DftError>(DftError::LayoutMismatch),
            r matches Ok(m) ==> m.width == width && m.values@ == finish_spec(
                buffer@, descriptor_for(Layout::RowContiguous, width), height as nat, width as nat),
    {
        finish(buffer, BatchDescriptor { batch_size: width, columns_batch: false }, height, width)
    }
}

} // verus!
