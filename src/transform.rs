use vstd::prelude::*;
use vstd::arithmetic::div_mod::{lemma_add_mod_noop_right, lemma_fundamental_div_mod_converse};
use crate::field::{add_mod, mul_mod, pow_mod};
use crate::matrix::column;

verus! {

/// `sum_{j < n} c[j] * x^j mod p`: the first `n` terms of the polynomial with
/// coefficients `c`, evaluated at `x`.
pub open spec fn eval_prefix(c: Seq<u32>, x: int, p: int, n: nat) -> int
    decreases n,
{
    if n == 0 {
        0
    } else {
        (eval_prefix(c, x, p, (n - 1) as nat) + c[n - 1] * pow_mod(x, (n - 1) as nat, p)) % p
    }
}

/// Output `k` of the forward transform of `c`: the polynomial with
/// coefficients `c` evaluated at `root^k`.
pub open spec fn dft_point(c: Seq<u32>, root: int, p: int, k: nat) -> int {
    eval_prefix(c, pow_mod(root, k, p), p, c.len())
}

/// The forward transform of one sequence, in natural order.
pub open spec fn dft_spec(c: Seq<u32>, root: int, p: int) -> Seq<int> {
    Seq::new(c.len(), |k: int| dft_point(c, root, p, k as nat))
}

/// The forward transform of every column of a row-major matrix of width `w`.
pub open spec fn dft_batch_spec(vals: Seq<u32>, w: nat, root: int, p: int) -> Seq<int> {
    let h = vals.len() / w;
    Seq::new(vals.len(), |n: int| dft_point(column(vals, w, h, (n % (w as int)) as nat), root, p, (n / (w as int)) as nat))
}

/// The residues as integers.
pub open spec fn as_ints(s: Seq<u32>) -> Seq<int> {
    Seq::new(s.len(), |i: int| s[i] as int)
}

/// Row `i`, column `j` of an `h` by `w` matrix lies inside its storage.
pub proof fn lemma_index_in_bounds(i: int, j: int, h: int, w: int)
    requires
        0 <= i < h,
        0 <= j < w,
    ensures
        0 <= i * w + j < h * w,
        (i * w + j) / w == i,
        (i * w + j) % w == j,
{
    assert(0 <= i * w + j < h * w) by (nonlinear_arith)
        requires
            0 <= i < h,
            0 <= j < w,
    ;
    lemma_fundamental_div_mod_converse(i * w + j, w, i, j);
}

/// An index into an `h` by `w` matrix splits into a row below `h` and a
/// column below `w`.
pub proof fn lemma_div_bound(n: int, h: int, w: int)
    requires
        0 <= n < h * w,
        w > 0,
    ensures
        0 <= n / w < h,
        0 <= n % w < w,
        n == (n / w) * w + n % w,
{
    vstd::arithmetic::div_mod::lemma_fundamental_div_mod(n, w);
    let q = n / w;
    let r = n % w;
    assert(0 <= q < h && n == q * w + r) by (nonlinear_arith)
        requires
            0 <= n < h * w,
            w > 0,
            n == w * q + r,
            0 <= r < w,
    ;
}

/// A length that is a multiple of `w` is `w` times its quotient.
pub proof fn lemma_len_is_product(len: int, w: int)
    requires
        w > 0,
        len >= 0,
        len % w == 0,
    ensures
        len == (len / w) * w,
{
    vstd::arithmetic::div_mod::lemma_fundamental_div_mod(len, w);
    assert(len == (len / w) * w) by (nonlinear_arith)
        requires
            len == w * (len / w) + len % w,
            len % w == 0,
    ;
}

/// Transforming a matrix of width `w` as one batch gives, in column `j`,
/// what transforming column `j` alone as a matrix of width one gives.
pub proof fn lemma_batch_independence(vals: Seq<u32>, w: nat, root: int, p: int, j: nat)
    requires
        w > 0,
        vals.len() % w == 0,
        j < w,
    ensures
        ({
            let h = vals.len() / w;
            let c = column(vals, w, h, j);
            &&& dft_batch_spec(c, 1, root, p) == dft_spec(c, root, p)
            &&& forall|i: int| 0 <= i < h ==> dft_batch_spec(vals, w, root, p)[#[trigger] (i * w + j)]
                == dft_batch_spec(c, 1, root, p)[i]
        }),
{
    let h = vals.len() / w;
    let c = column(vals, w, h, j);
    lemma_len_is_product(vals.len() as int, w as int);
    assert(c.len() / 1 == h);
    assert(column(c, 1, h, 0) =~= c);
    assert forall|n: int| 0 <= n < c.len() implies #[trigger] dft_batch_spec(c, 1, root, p)[n] == dft_spec(c, root, p)[n] by {
        assert(n % 1 == 0 && n / 1 == n);
    }
    assert(dft_batch_spec(c, 1, root, p) =~= dft_spec(c, root, p));
    assert forall|i: int| 0 <= i < h implies dft_batch_spec(vals, w, root, p)[#[trigger] (i * w + j)]
        == dft_batch_spec(c, 1, root, p)[i] by {
        lemma_index_in_bounds(i, j as int, h as int, w as int);
    }
}

/// The polynomial with coefficients `c`, evaluated at `x`, modulo `p`.
fn eval_at(c: &Vec<u32>, x: u32, p: u32) -> (r: u32)
    requires
        p > 0,
    ensures
        r as int == eval_prefix(c@, x as int, p as int, c@.len()),
        r < p,
{
    let n = c.len();
    let mut acc: u32 = 0;
    let mut xp: u32 = 1 % p;
    let mut j: usize = 0;
    while j < n
        invariant
            n == c@.len(),
            p > 0,
            j <= n,
            acc < p,
            xp < p,
            acc as int == eval_prefix(c@, x as int, p as int, j as nat),
            xp as int == pow_mod(x as int, j as nat, p as int),
        decreases n - j,
    {
        let t = mul_mod(c[j], xp, p);
        proof {
            lemma_add_mod_noop_right(acc as int, c@[j as int] as int * xp as int, p as int);
        }
        acc = add_mod(acc, t, p);
        xp = mul_mod(xp, x, p);
        j = j + 1;
    }
    acc
}

/// The forward transform of one sequence by direct evaluation: output `k` is
/// the polynomial with coefficients `c` evaluated at `root^k`, modulo `p`.
pub fn dft_column(c: &Vec<u32>, root: u32, p: u32) -> (r: Vec<u32>)
    requires
        p > 0,
    ensures
        as_ints(r@) == dft_spec(c@, root as int, p as int),
{
    let n = c.len();
    let mut out: Vec<u32> = Vec::new();
    let mut x: u32 = 1 % p;
    let mut k: usize = 0;
    while k < n
        invariant
            n == c@.len(),
            p > 0,
            k <= n,
            out@.len() == k,
            x < p,
            x as int == pow_mod(root as int, k as nat, p as int),
            forall|i: int| 0 <= i < k ==> out@[i] as int == dft_point(c@, root as int, p as int, i as nat),
        decreases n - k,
    {
        let v = eval_at(c, x, p);
        out.push(v);
        x = mul_mod(x, root, p);
        k = k + 1;
    }
    assert(as_ints(out@) =~= dft_spec(c@, root as int, p as int));
    out
}

/// Column `j` of the row-major matrix `vals` of width `w`.
pub fn column_values(vals: &Vec<u32>, w: usize, j: usize) -> (r: Vec<u32>)
    requires
        w > 0,
        j < w,
        vals@.len() % (w as nat) == 0,
    ensures
        r@ == column(vals@, w as nat, vals@.len() / (w as nat), j as nat),
{
    let h = vals.len() / w;
    proof {
        lemma_len_is_product(vals@.len() as int, w as int);
    }
    let mut out: Vec<u32> = Vec::new();
    let mut i: usize = 0;
    while i < h
        invariant
            h == vals@.len() / (w as nat),
            vals@.len() == h * w,
            vals@.len() <= usize::MAX,
            w > 0,
            j < w,
            i <= h,
            out@.len() == i,
            forall|t: int| 0 <= t < i ==> out@[t] == vals@[t * w + j],
        decreases h - i,
    {
        proof {
            lemma_index_in_bounds(i as int, j as int, h as int, w as int);
        }
        let idx: usize = i * w + j;
        out.push(vals[idx]);
        i = i + 1;
    }
    assert(out@ =~= column(vals@, w as nat, h as nat, j as nat));
    out
}

/// The forward transform of every column of the row-major matrix `vals` of
/// width `w`, each column transformed on its own, written back in place of it.
pub fn dft_batch_values(vals: &Vec<u32>, w: usize, root: u32, p: u32) -> (r: Vec<u32>)
    requires
        w > 0,
        p > 0,
        vals@.len() % (w as nat) == 0,
    ensures
        as_ints(r@) == dft_batch_spec(vals@, w as nat, root as int, p as int),
{
    let len = vals.len();
    let h = len / w;
    let ghost hs = vals@.len() / (w as nat);
    let mut cols: Vec<Vec<u32>> = Vec::new();
    let mut j: usize = 0;
    while j < w
        invariant
            h == hs,
            hs == vals@.len() / (w as nat),
            j <= w,
            w > 0,
            p > 0,
            vals@.len() % (w as nat) == 0,
            cols@.len() == j,
            forall|t: int| 0 <= t < j ==> as_ints(#[trigger] cols@[t]@) == dft_spec(
                column(vals@, w as nat, hs, t as nat), root as int, p as int),
        decreases w - j,
    {
        let c = column_values(vals, w, j);
        let d = dft_column(&c, root, p);
        let ghost before = cols@;
        cols.push(d);
        proof {
            assert forall|t: int| 0 <= t < j + 1 implies as_ints(#[trigger] cols@[t]@) == dft_spec(
                column(vals@, w as nat, hs, t as nat), root as int, p as int) by {
                if t < j {
                    assert(cols@[t] == before[t]);
                } else {
                    assert(t == j);
                    assert(cols@[t] == d);
                    assert(c@ == column(vals@, w as nat, hs, j as nat));
                    assert(as_ints(d@) == dft_spec(c@, root as int, p as int));
                }
            }
        }
        j = j + 1;
    }
    proof {
        lemma_len_is_product(vals@.len() as int, w as int);
    }
    let mut out: Vec<u32> = Vec::new();
    let mut n: usize = 0;
    while n < len
        invariant
            len == vals@.len(),
            h == hs,
            hs == vals@.len() / (w as nat),
            w > 0,
            len == h * w,
            cols@.len() == w,
            forall|t: int| 0 <= t < w ==> as_ints(#[trigger] cols@[t]@) == dft_spec(
                column(vals@, w as nat, hs, t as nat), root as int, p as int),
            n <= len,
            out@.len() == n,
            forall|t: int| 0 <= t < n ==> out@[t] as int == dft_batch_spec(vals@, w as nat, root as int, p as int)[t],
        decreases len - n,
    {
        let i = n / w;
        let jj = n % w;
        proof {
            vstd::arithmetic::div_mod::lemma_fundamental_div_mod(n as int, w as int);
            assert(i < h) by (nonlinear_arith)
                requires
                    n < h * w,
                    n == w * i + jj,
                    jj >= 0,
                    w > 0,
            ;
            let cj = column(vals@, w as nat, hs, jj as nat);
            assert(as_ints(cols@[jj as int]@) == dft_spec(cj, root as int, p as int));
            assert(as_ints(cols@[jj as int]@)[i as int] == dft_spec(cj, root as int, p as int)[i as int]);
            assert(cols@[jj as int]@[i as int] as int == dft_point(cj, root as int, p as int, i as nat));
            assert(dft_batch_spec(vals@, w as nat, root as int, p as int)[n as int]
                == dft_point(cj, root as int, p as int, i as nat));
        }
        out.push(cols[jj][i]);
        n = n + 1;
    }
    assert(as_ints(out@) =~= dft_batch_spec(vals@, w as nat, root as int, p as int));
    out
}

} // verus!
