//! Shaped tensors over flat storage.
//!
//! A `FloatTensor` pairs a shape — an ordered sequence of per-dimension
//! extents — with a [`FloatStorage`] holding exactly one element per
//! addressable index tuple. Indexed access resolves the tuple to a
//! row-major flat offset with [`resolve_index`] and then reads or writes
//! the storage at that offset; tuples of the wrong arity or with an
//! out-of-range coordinate are reported as recoverable errors.

use vstd::prelude::*;

use crate::indexing::{
    flat_index, index_error_of, index_in_bounds, lemma_flat_index_in_range, resolve_index,
    shape_size, IndexError,
};
use crate::storage::{FloatStorage, DEFAULT_ELEMENT};

verus! {

/// A shape with one element of storage for every addressable index tuple.
pub struct FloatTensor {
    dims: Vec<usize>,
    storage: FloatStorage,
}

impl FloatTensor {
    /// The tensor's shape: its per-dimension extents, from the most major
    /// dimension to the most minor.
    pub closed spec fn shape(&self) -> Seq<usize> {
        self.dims@
    }

    /// The stored element patterns, in row-major buffer order.
    pub closed spec fn elems(&self) -> Seq<u32> {
        self.storage@
    }

    /// Well-formedness: the storage holds exactly one element per
    /// addressable index tuple, and that count fits the machine word that
    /// offsets are computed in.
    pub closed spec fn wf(&self) -> bool {
        &&& self.storage@.len() == shape_size(self.dims@)
        &&& shape_size(self.dims@) <= usize::MAX
    }

    /// The tensor with no dimensions. The empty product of extents is 1,
    /// so it holds a single element, with the default pattern.
    pub fn new() -> (t: Self)
        ensures
            t.wf(),
            t.shape() =~= Seq::<usize>::empty(),
            t.elems() =~= seq![DEFAULT_ELEMENT],
    {
        let storage = FloatStorage::sized(1);
        FloatTensor { dims: Vec::new(), storage }
    }

    /// A tensor of the given shape, every element holding the default
    /// pattern. Each suffix product of the extents — every stride as well
    /// as the total element count — must fit in `usize`, or neither the
    /// storage nor any offset into it could be addressed.
    pub fn sized(dims: Vec<usize>) -> (t: Self)
        requires
            forall|i: int|
                0 <= i <= dims@.len() ==> #[trigger] shape_size(dims@.skip(i)) <= usize::MAX,
        ensures
            t.wf(),
            t.shape() == dims@,
            t.elems().len() == shape_size(dims@),
            forall|k: int| 0 <= k < t.elems().len() ==> t.elems()[k] == DEFAULT_ELEMENT,
    {
        let n = dims.len();
        let mut size: usize = 1;
        let mut j: usize = n;
        assert(dims@.skip(n as int) =~= Seq::<usize>::empty());
        while j > 0
            invariant
                n == dims@.len(),
                0 <= j <= n,
                forall|i: int|
                    0 <= i <= dims@.len() ==> #[trigger] shape_size(dims@.skip(i)) <= usize::MAX,
                size == shape_size(dims@.skip(j as int)),
            decreases j,
        {
            j = j - 1;
            proof {
                let jj = j as int;
                assert(dims@.skip(jj).skip(1) =~= dims@.skip(jj + 1));
                assert(dims@.skip(jj)[0] == dims@[jj]);
                assert(shape_size(dims@.skip(jj)) == (dims@[jj] as nat) * size);
            }
            size = dims[j] * size;
        }
        assert(dims@.skip(0) =~= dims@);
        let storage = FloatStorage::sized(size);
        FloatTensor { dims, storage }
    }

    /// The tensor's extents, one per dimension.
    pub fn extents(&self) -> (r: &Vec<usize>)
        ensures
            r@ == self.shape(),
    {
        &self.dims
    }

    /// The number of elements the tensor holds.
    pub fn len(&self) -> (n: usize)
        requires
            self.wf(),
        ensures
            n == shape_size(self.shape()),
    {
        self.storage.len()
    }

    /// The stored element patterns, in row-major buffer order.
    pub fn elements(&self) -> (r: &Vec<u32>)
        ensures
            r@ == self.elems(),
    {
        self.storage.elements()
    }

    /// The row-major flat offset at which an index tuple addresses this
    /// tensor's storage, or why the tuple addresses nothing.
    pub fn offset_of(&self, idx: &Vec<usize>) -> (r: Result<usize, IndexError>)
        requires
            self.wf(),
        ensures
            r is Ok <==> index_in_bounds(self.shape(), idx@),
            r matches Ok(o) ==> o == flat_index(self.shape(), idx@),
            r matches Err(e) ==> e == index_error_of(self.shape(), idx@),
    {
        resolve_index(&self.dims, idx)
    }

    /// The element pattern addressed by an index tuple.
    pub fn get(&self, idx: &Vec<usize>) -> (r: Result<u32, IndexError>)
        requires
            self.wf(),
        ensures
            r is Ok <==> index_in_bounds(self.shape(), idx@),
            r matches Ok(v) ==> v == self.elems()[flat_index(self.shape(), idx@) as int],
            r matches Err(e) ==> e == index_error_of(self.shape(), idx@),
    {
        match resolve_index(&self.dims, idx) {
            Ok(o) => {
                proof {
                    lemma_flat_index_in_range(self.shape(), idx@);
                }
                Ok(self.storage.get(o))
            },
            Err(e) => Err(e),
        }
    }

    /// Overwrites the element addressed by an index tuple, leaving the
    /// shape and every other element unchanged. On an unresolvable tuple
    /// the tensor is left exactly as it was.
    pub fn set(&mut self, idx: &Vec<usize>, v: u32) -> (r: Result<(), IndexError>)
        requires
            old(self).wf(),
        ensures
            final(self).wf(),
            final(self).shape() == old(self).shape(),
            r is Ok <==> index_in_bounds(old(self).shape(), idx@),
            r is Ok ==> final(self).elems() =~= old(self).elems().update(
                flat_index(old(self).shape(), idx@) as int,
                v,
            ),
            r matches Err(e) ==> e == index_error_of(old(self).shape(), idx@)
                && final(self).elems() == old(self).elems(),
    {
        match resolve_index(&self.dims, idx) {
            Ok(o) => {
                proof {
                    lemma_flat_index_in_range(self.shape(), idx@);
                }
                self.storage.set(o, v);
                Ok(())
            },
            Err(e) => Err(e),
        }
    }
}

} // verus!
