//! Digests and Merkle caps, over field elements or over circuit targets.

use vstd::prelude::*;

verus! {

/// The number of elements in a digest.
pub const NUM_HASH_OUT_ELTS: usize = 4;

/// A digest: four elements.
#[derive(Copy, Clone, Debug)]
pub struct HashOut<T> {
    pub elements: [T; 4],
}

/// The digests at one level of a Merkle tree, in order.
#[derive(Clone, Debug)]
pub struct MerkleCap<T>(pub Vec<HashOut<T>>);

/// The digests of the sibling subtrees along a path, from the leaf up.
#[derive(Clone, Debug)]
pub struct MerkleProof<T> {
    pub siblings: Vec<HashOut<T>>,
}

impl<T> View for MerkleCap<T> {
    type V = Seq<HashOut<T>>;

    /// The digests, in order.
    open spec fn view(&self) -> Seq<HashOut<T>> {
        self.0@
    }
}

/// The caps of a sequence of caps, each as the sequence of its digests.
pub open spec fn cap_views<T>(caps: Seq<MerkleCap<T>>) -> Seq<Seq<HashOut<T>>> {
    Seq::new(caps.len(), |i: int| caps[i]@)
}

/// A copy of a slice.
pub fn copy_slice<T: Copy>(s: &[T]) -> (r: Vec<T>)
    ensures
        r@ == s@,
{
    let mut r: Vec<T> = Vec::new();
    let mut i: usize = 0;
    while i < s.len()
        invariant
            i <= s.len(),
            r@ == s@.subrange(0, i as int),
        decreases s.len() - i,
    {
        r.push(s[i]);
        i += 1;
    }
    assert(s@.subrange(0, s.len() as int) =~= s@);
    r
}

/// A copy of the part of a slice from `lo` up to `hi`.
pub fn copy_range<T: Copy>(s: &[T], lo: usize, hi: usize) -> (r: Vec<T>)
    requires
        lo <= hi <= s@.len(),
    ensures
        r@ == s@.subrange(lo as int, hi as int),
{
    let mut r: Vec<T> = Vec::new();
    let mut i: usize = lo;
    while i < hi
        invariant
            lo <= i <= hi <= s@.len(),
            r@ == s@.subrange(lo as int, i as int),
        decreases hi - i,
    {
        r.push(s[i]);
        i += 1;
    }
    r
}

impl<T: Copy> MerkleCap<T> {
    /// A copy of the cap.
    pub fn duplicate(&self) -> (r: MerkleCap<T>)
        ensures
            r@ == self@,
    {
        MerkleCap(copy_slice(self.0.as_slice()))
    }

    /// The number of digests.
    pub fn len(&self) -> (n: usize)
        ensures
            n == self@.len(),
    {
        self.0.len()
    }
}

/// A copy of a sequence of caps.
pub fn copy_caps<T: Copy>(caps: &[MerkleCap<T>]) -> (r: Vec<MerkleCap<T>>)
    ensures
        cap_views(r@) == cap_views(caps@),
{
    let mut r: Vec<MerkleCap<T>> = Vec::new();
    let mut i: usize = 0;
    while i < caps.len()
        invariant
            i <= caps.len(),
            r@.len() == i,
            forall|j: int| 0 <= j < i ==> r@[j]@ == caps@[j]@,
        decreases caps.len() - i,
    {
        r.push(caps[i].duplicate());
        i += 1;
    }
    assert(cap_views(r@) =~= cap_views(caps@));
    r
}

} // verus!
