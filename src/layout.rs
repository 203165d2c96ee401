use vstd::prelude::*;
use crate::codec::{decode, AcceleratorElement};
use crate::error::DftError;
use crate::field::P;
use crate::matrix::{column, transpose_spec, RowMajorMatrix};
use crate::transform::{as_ints, dft_batch_spec, dft_point, lemma_div_bound, lemma_index_in_bounds, lemma_len_is_product};

verus! {

/// How the columns of a matrix are laid out in the buffer handed to the
/// accelerator.
#[derive(Debug, Clone, Copy, PartialEq, Eq, Structural)]
pub enum Layout {
    /// The row-major storage as it is: one sequence per column, its elements
    /// `batch_size` apart.
    ColumnStrided,
    /// The transpose: one contiguous sequence per column.
    RowContiguous,
}

/// How many sequences a buffer holds and how they are interleaved.
#[derive(Debug, Clone, Copy, PartialEq, Eq, Structural)]
pub struct BatchDescriptor {
    pub batch_size: usize,
    pub columns_batch: bool,
}

/// The descriptor of a buffer of `w` sequences in the given layout.
pub open spec fn descriptor_for(layout: Layout, w: usize) -> BatchDescriptor {
    BatchDescriptor { batch_size: w, columns_batch: layout == Layout::ColumnStrided }
}

/// Sequence `k`, of length `h`, of a buffer laid out as `d` says.
pub open spec fn sequence_of(buf: Seq<AcceleratorElement>, d: BatchDescriptor, h: nat, k: nat) -> Seq<u32> {
    if d.columns_batch {
        Seq::new(h, |i: int| buf[i * d.batch_size + k].limb)
    } else {
        Seq::new(h, |i: int| buf[k * h + i].limb)
    }
}

/// The buffer that holds the residues `vals` of a matrix of width `w` in
/// the given layout.
pub open spec fn prepare_spec(vals: Seq<u32>, w: nat, layout: Layout) -> Seq<AcceleratorElement> {
    let src = if layout == Layout::ColumnStrided {
        vals
    } else {
        transpose_spec(vals, w, vals.len() / w)
    };
    Seq::new(src.len(), |i: int| AcceleratorElement { limb: src[i] })
}

/// The residues of the `h` by `w` matrix read back from a transformed buffer:
/// entry `(i, j)` is element `i` of sequence `j`, reduced modulo `P`.
pub open spec fn finish_spec(buf: Seq<AcceleratorElement>, d: BatchDescriptor, h: nat, w: nat) -> Seq<u32> {
    Seq::new(h * w, |n: int| (sequence_of(buf, d, h, (n % (w as int)) as nat)[n / (w as int)] % P) as u32)
}

/// Encodes the matrix into a buffer in the given layout, with its descriptor.
/// Sequence `k` of the buffer is column `k` of the matrix, whichever the layout.
pub fn prepare(mat: &RowMajorMatrix, layout: Layout) -> (r: (Vec<AcceleratorElement>, BatchDescriptor))
    requires
        mat.wf(),
    ensures
        r.0@ == prepare_spec(mat.values@, mat.width as nat, layout),
        r.1 == descriptor_for(layout, mat.width),
        r.0@.len() == mat.values@.len(),
        forall|k: nat| k < mat.width ==> #[trigger] sequence_of(r.0@, r.1, mat.height_spec(), k)
            == column(mat.values@, mat.width as nat, mat.height_spec(), k),
{
    let src: Vec<u32> = match layout {
        Layout::ColumnStrided => mat.values.clone(),
        Layout::RowContiguous => mat.transpose().values,
    };
    let mut buf: Vec<AcceleratorElement> = Vec::new();
    let mut i: usize = 0;
    while i < src.len()
        invariant
            i <= src@.len(),
            buf@.len() == i,
            forall|t: int| 0 <= t < i ==> buf@[t] == (AcceleratorElement { limb: src@[t] }),
        decreases src@.len() - i,
    {
        buf.push(AcceleratorElement { limb: src[i] });
        i = i + 1;
    }
    let d = BatchDescriptor { batch_size: mat.width, columns_batch: layout == Layout::ColumnStrided };
    proof {
        lemma_len_is_product(mat.values@.len() as int, mat.width as int);
        assert(mat.width * mat.height_spec() == mat.height_spec() * mat.width) by (nonlinear_arith);
        assert(buf@ =~= prepare_spec(mat.values@, mat.width as nat, layout));
        assert forall|k: nat| k < mat.width implies #[trigger] sequence_of(buf@, d, mat.height_spec(), k)
            == column(mat.values@, mat.width as nat, mat.height_spec(), k) by {
            lemma_prepared_sequence(mat.values@, mat.width, layout, k);
        }
    }
    (buf, d)
}

/// Sequence `k` of a prepared buffer is column `k` of the matrix, in either layout.
pub proof fn lemma_prepared_sequence(vals: Seq<u32>, w: usize, layout: Layout, k: nat)
    requires
        w > 0,
        vals.len() % (w as nat) == 0,
        k < w,
    ensures
        sequence_of(prepare_spec(vals, w as nat, layout), descriptor_for(layout, w), vals.len() / (w as nat), k)
            == column(vals, w as nat, vals.len() / (w as nat), k),
{
    let h = vals.len() / (w as nat);
    let buf = prepare_spec(vals, w as nat, layout);
    let d = descriptor_for(layout, w);
    lemma_len_is_product(vals.len() as int, w as int);
    assert forall|i: int| 0 <= i < h implies sequence_of(buf, d, h, k)[i] == column(vals, w as nat, h, k)[i] by {
        lemma_index_in_bounds(i, k as int, h as int, w as int);
        if layout == Layout::RowContiguous {
            lemma_index_in_bounds(k as int, i, w as int, h as int);
            assert(w * h == h * w) by (nonlinear_arith);
        }
    }
    assert(sequence_of(buf, d, h, k) =~= column(vals, w as nat, h, k));
}

/// Both layouts give the same matrix, whatever transform the accelerator
/// applies to each sequence, as long as it applies the same one in both:
/// each layout prepares column `k` as sequence `k`, and reads sequence `k`
/// back into column `k`.
pub proof fn lemma_layout_equivalence(
    vals: Seq<u32>,
    w: usize,
    f: spec_fn(Seq<u32>) -> Seq<u32>,
    out_strided: Seq<AcceleratorElement>,
    out_contiguous: Seq<AcceleratorElement>,
)
    requires
        w > 0,
        vals.len() % (w as nat) == 0,
        forall|k: nat| k < w ==> #[trigger] sequence_of(out_strided, descriptor_for(Layout::ColumnStrided, w), vals.len() / (w as nat), k)
            == f(sequence_of(prepare_spec(vals, w as nat, Layout::ColumnStrided), descriptor_for(Layout::ColumnStrided, w), vals.len() / (w as nat), k)),
        forall|k: nat| k < w ==> #[trigger] sequence_of(out_contiguous, descriptor_for(Layout::RowContiguous, w), vals.len() / (w as nat), k)
            == f(sequence_of(prepare_spec(vals, w as nat, Layout::RowContiguous), descriptor_for(Layout::RowContiguous, w), vals.len() / (w as nat), k)),
    ensures
        finish_spec(out_strided, descriptor_for(Layout::ColumnStrided, w), vals.len() / (w as nat), w as nat)
            == finish_spec(out_contiguous, descriptor_for(Layout::RowContiguous, w), vals.len() / (w as nat), w as nat),
{
    let h = vals.len() / (w as nat);
    let a = finish_spec(out_strided, descriptor_for(Layout::ColumnStrided, w), h, w as nat);
    let b = finish_spec(out_contiguous, descriptor_for(Layout::RowContiguous, w), h, w as nat);
    assert forall|n: int| 0 <= n < a.len() implies a[n] == b[n] by {
        let k = (n % (w as int)) as nat;
        lemma_prepared_sequence(vals, w, Layout::ColumnStrided, k);
        lemma_prepared_sequence(vals, w, Layout::RowContiguous, k);
        assert(sequence_of(out_strided, descriptor_for(Layout::ColumnStrided, w), h, k)
            == sequence_of(out_contiguous, descriptor_for(Layout::RowContiguous, w), h, k));
    }
    assert(a =~= b);
}

/// Where the accelerator leaves in each sequence values congruent to the
/// forward transform of that sequence under `root`, the matrix read back is
/// the reference transform of the input under that root, in either layout.
pub proof fn lemma_finish_matches_reference(
    vals: Seq<u32>,
    w: usize,
    layout: Layout,
    out: Seq<AcceleratorElement>,
    root: int,
)
    requires
        w > 0,
        vals.len() % (w as nat) == 0,
        forall|k: nat, i: int| k < w && 0 <= i < vals.len() / (w as nat) ==>
            (#[trigger] sequence_of(out, descriptor_for(layout, w), vals.len() / (w as nat), k)[i]) % P
            == dft_point(sequence_of(prepare_spec(vals, w as nat, layout), descriptor_for(layout, w), vals.len() / (w as nat), k), root, P as int, i as nat),
    ensures
        as_ints(finish_spec(out, descriptor_for(layout, w), vals.len() / (w as nat), w as nat))
            == dft_batch_spec(vals, w as nat, root, P as int),
{
    let h = vals.len() / (w as nat);
    let d = descriptor_for(layout, w);
    let a = as_ints(finish_spec(out, d, h, w as nat));
    let b = dft_batch_spec(vals, w as nat, root, P as int);
    lemma_len_is_product(vals.len() as int, w as int);
    assert(h * w == vals.len()) by (nonlinear_arith)
        requires
            vals.len() == h * w,
    ;
    assert forall|n: int| 0 <= n < a.len() implies a[n] == b[n] by {
        lemma_div_bound(n, h as int, w as int);
        let k = (n % (w as int)) as nat;
        let i = n / (w as int);
        lemma_prepared_sequence(vals, w, layout, k);
        assert(sequence_of(out, d, h, k)[i] % P == dft_point(column(vals, w as nat, h, k), root, P as int, i as nat));
    }
    assert(a =~= b);
}

/// Decodes a transformed buffer back into an `h` by `w` matrix of canonical
/// residues, undoing the layout. A descriptor or a length that does not fit
/// `h` and `w` is refused.
pub fn finish(buf: &Vec<AcceleratorElement>, d: BatchDescriptor, h: usize, w: usize) -> (r: Result<RowMajorMatrix, DftError>)
    requires
        h > 0,
        w > 0,
    ensures
        r is Err <==> (d.batch_size != w || buf@.len() != h * w),
        r is Err ==> r == Err::<RowMajorMatrix, DftError>(DftError::LayoutMismatch),
        r matches Ok(m) ==> m.width == w && m.values@ == finish_spec(buf@, d, h as nat, w as nat),
{
    if d.batch_size != w || h.checked_mul(w) != Some(buf.len()) {
        return Err(DftError::LayoutMismatch);
    }
    let mut dec: Vec<u32> = Vec::new();
    let mut i: usize = 0;
    while i < buf.len()
        invariant
            i <= buf@.len(),
            dec@.len() == i,
            forall|t: int| 0 <= t < i ==> dec@[t] == buf@[t].limb % P,
        decreases buf@.len() - i,
    {
        dec.push(decode(buf[i]).value);
        i = i + 1;
    }
    let ghost spec = finish_spec(buf@, d, h as nat, w as nat);
    if d.columns_batch {
        proof {
            assert forall|n: int| 0 <= n < h * w implies dec@[n] == spec[n] by {
                lemma_div_bound(n, h as int, w as int);
                lemma_index_in_bounds(n / (w as int), n % (w as int), h as int, w as int);
            }
            assert(dec@ =~= spec);
        }
        Ok(RowMajorMatrix { values: dec, width: w })
    } else {
        proof {
            assert(h * w > 0) by (nonlinear_arith)
                requires
                    h > 0,
                    w > 0,
            ;
            assert(dec@.len() % (h as nat) == 0) by {
                vstd::arithmetic::div_mod::lemma_mod_multiples_basic(w as int, h as int);
                assert(h * w == w * h) by (nonlinear_arith);
            }
        }
        let back = crate::matrix::transpose_values(dec, h);
        proof {
            assert(dec@.len() / (h as nat) == w) by {
                vstd::arithmetic::div_mod::lemma_div_multiples_vanish(w as int, h as int);
                assert(h * w == w * h) by (nonlinear_arith);
            }
            assert forall|n: int| 0 <= n < h * w implies back@[n] == spec[n] by {
                lemma_div_bound(n, h as int, w as int);
                let i = n / (w as int);
                let j = n % (w as int);
                lemma_index_in_bounds(i, j, h as int, w as int);
                lemma_index_in_bounds(j, i, w as int, h as int);
                let t = j * h + i;
                assert(w * h == h * w) by (nonlinear_arith);
                assert(t < buf@.len());
                assert(back@[n] == dec@[t]);
                assert(dec@[t] == buf@[t].limb % P);
                assert(sequence_of(buf@, d, h as nat, j as nat)[i] == buf@[t].limb);
            }
            assert(back@ =~= spec);
        }
        Ok(RowMajorMatrix { values: back, width: w })
    }
}

} // verus!
