//! Committed polynomials and their values at a point of the extension.

use crate::extension::{poly_eval, values, Extension};
use crate::goldilocks_field::GoldilocksField;
use vstd::prelude::*;

verus! {

/// A polynomial over the field, by its coefficients, lowest first.
#[derive(Clone, Debug)]
pub struct PolynomialCoeffs {
    pub coeffs: Vec<GoldilocksField>,
}

/// The polynomials of one commitment, one for each column, in the order of
/// the columns.
#[derive(Clone, Debug)]
pub struct PolynomialBatch {
    pub polynomials: Vec<PolynomialCoeffs>,
}

/// The views of a sequence of extension elements.
pub open spec fn ext_views<const D: usize>(s: Seq<Extension<D>>) -> Seq<Seq<int>> {
    Seq::new(s.len(), |i: int| s[i]@)
}

/// The values at `z` of the polynomials `polys`, in their order.
pub open spec fn batch_evals(polys: Seq<PolynomialCoeffs>, z: Seq<int>) -> Seq<Seq<int>> {
    Seq::new(polys.len(), |j: int| poly_eval(values(polys[j].coeffs@), z))
}

/// The values at `z` of the polynomials of all of `batches`: those of the
/// first batch, then those of the second, and so on.
pub open spec fn all_evals(batches: Seq<PolynomialBatch>, z: Seq<int>) -> Seq<Seq<int>>
    decreases batches.len(),
{
    if batches.len() == 0 {
        Seq::empty()
    } else {
        all_evals(batches.drop_last(), z) + batch_evals(batches.last().polynomials@, z)
    }
}

impl PolynomialCoeffs {
    /// The value of the polynomial at the point `z` of the extension.
    pub fn eval_ext<const D: usize>(&self, z: Extension<D>) -> (r: Extension<D>)
        requires
            D >= 1,
        ensures
            r@ == poly_eval(values(self.coeffs@), z@),
    {
        z.eval_base_poly(self.coeffs.as_slice())
    }
}

impl PolynomialBatch {
    /// Appends to `out` the value at `z` of every polynomial of the batch,
    /// in the order of the columns.
    pub fn eval_all_into<const D: usize>(&self, z: Extension<D>, out: &mut Vec<Extension<D>>)
        requires
            D >= 1,
        ensures
            ext_views(final(out)@) == ext_views(old(out)@) + batch_evals(self.polynomials@, z@),
    {
        let ghost before = ext_views(out@);
        let mut j: usize = 0;
        while j < self.polynomials.len()
            invariant
                D >= 1,
                j <= self.polynomials.len(),
                ext_views(out@) == before + batch_evals(
                    self.polynomials@.subrange(0, j as int),
                    z@,
                ),
            decreases self.polynomials.len() - j,
        {
            let v = self.polynomials[j].eval_ext(z);
            let ghost prev = out@;
            out.push(v);
            proof {
                let polys = self.polynomials@;
                assert(ext_views(out@) =~= ext_views(prev).push(v@));
                assert(batch_evals(polys.subrange(0, j + 1), z@) =~= batch_evals(
                    polys.subrange(0, j as int),
                    z@,
                ).push(v@));
            }
            j += 1;
        }
        assert(self.polynomials@.subrange(0, self.polynomials@.len() as int)
            =~= self.polynomials@);
    }
}

/// The value at `z` of every polynomial of every batch of `batches`, in
/// the order of the batches and, within a batch, of its columns.
pub fn eval_commitments<const D: usize>(batches: &[PolynomialBatch], z: Extension<D>) -> (r: Vec<
    Extension<D>,
>)
    requires
        D >= 1,
    ensures
        ext_views(r@) == all_evals(batches@, z@),
{
    let mut out: Vec<Extension<D>> = Vec::new();
    let mut i: usize = 0;
    assert(batches@.subrange(0, 0) =~= Seq::<PolynomialBatch>::empty());
    assert(ext_views(out@) =~= Seq::<Seq<int>>::empty());
    while i < batches.len()
        invariant
            D >= 1,
            i <= batches.len(),
            ext_views(out@) == all_evals(batches@.subrange(0, i as int), z@),
        decreases batches.len() - i,
    {
        batches[i].eval_all_into(z, &mut out);
        proof {
            let next = batches@.subrange(0, i + 1);
            assert(next.drop_last() =~= batches@.subrange(0, i as int));
            assert(next.last() == batches@[i as int]);
        }
        i += 1;
    }
    assert(batches@.subrange(0, batches@.len() as int) =~= batches@);
    out
}

} // verus!
