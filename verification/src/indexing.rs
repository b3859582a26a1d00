//! Resolution of multi-dimensional index tuples to flat row-major offsets.
//!
//! A shape is a sequence of per-dimension extents. The flat offset of an
//! index tuple is the sum over all dimensions of the coordinate times the
//! stride of its dimension, where the stride of a dimension is the product
//! of the extents of all more-minor dimensions (so the last dimension has
//! stride 1). This module defines those notions as spec functions, provides
//! an executable resolver that rejects tuples of the wrong arity or with an
//! out-of-range coordinate, and proves that on every shape the resolution
//! maps the in-bounds index tuples bijectively onto the offsets below the
//! shape's size.

use vstd::prelude::*;

verus! {

/// Why an index tuple failed to resolve against a shape.
#[derive(Clone, Copy, Debug, PartialEq, Eq, Structural)]
pub enum IndexError {
    /// The tuple's arity differs from the shape's number of dimensions.
    WrongArity { expected: usize, got: usize },
    /// The coordinate at dimension `dim` is not below that dimension's extent.
    OutOfRange { dim: usize, index: usize, extent: usize },
}

/// The number of elements a shape addresses: the product of its extents.
/// The empty shape has size 1 (it addresses a single scalar).
pub open spec fn shape_size(dims: Seq<usize>) -> nat
    decreases dims.len(),
{
    if dims.len() == 0 {
        1
    } else {
        (dims[0] as nat) * shape_size(dims.skip(1))
    }
}

/// The stride of dimension `i`: the product of the extents of all
/// more-minor dimensions, so that the last dimension has stride 1.
pub open spec fn stride_at(dims: Seq<usize>, i: int) -> nat {
    shape_size(dims.skip(i + 1))
}

/// Whether an index tuple addresses an element of the shape: it has one
/// coordinate per dimension and each coordinate is below its extent.
pub open spec fn index_in_bounds(dims: Seq<usize>, idx: Seq<usize>) -> bool {
    &&& idx.len() == dims.len()
    &&& forall|i: int| 0 <= i < idx.len() ==> idx[i] < dims[i]
}

/// The row-major flat offset of an index tuple: the sum over all dimensions
/// of the coordinate times the stride of its dimension.
pub open spec fn flat_index(dims: Seq<usize>, idx: Seq<usize>) -> nat
    decreases idx.len(),
{
    if idx.len() == 0 {
        0
    } else {
        (idx[0] as nat) * stride_at(dims, 0) + flat_index(dims.skip(1), idx.skip(1))
    }
}

/// The first dimension whose coordinate is not below its extent. Meaningful
/// only for tuples of the right arity that are out of bounds somewhere.
pub open spec fn first_out_of_range(dims: Seq<usize>, idx: Seq<usize>) -> int
    decreases idx.len(),
{
    if idx.len() == 0 {
        0
    } else if idx[0] >= dims[0] {
        0
    } else {
        1 + first_out_of_range(dims.skip(1), idx.skip(1))
    }
}

/// The error that resolving `idx` against `dims` reports. Meaningful only
/// when the tuple is not in bounds: a tuple of the wrong arity is rejected
/// outright, and otherwise the first out-of-range dimension is named.
pub open spec fn index_error_of(dims: Seq<usize>, idx: Seq<usize>) -> IndexError {
    if idx.len() != dims.len() {
        IndexError::WrongArity { expected: dims.len() as usize, got: idx.len() as usize }
    } else {
        let d = first_out_of_range(dims, idx);
        IndexError::OutOfRange { dim: d as usize, index: idx[d], extent: dims[d] }
    }
}

/// The dimension named by `first_out_of_range` is exactly the least one
/// whose coordinate reaches its extent.
pub proof fn lemma_first_out_of_range(dims: Seq<usize>, idx: Seq<usize>, i: int)
    requires
        idx.len() == dims.len(),
        0 <= i < idx.len(),
        idx[i] >= dims[i],
        forall|k: int| 0 <= k < i ==> idx[k] < dims[k],
    ensures
        first_out_of_range(dims, idx) == i,
    decreases i,
{
    if i > 0 {
        assert(forall|k: int| 0 <= k < idx.skip(1).len() ==> idx.skip(1)[k] == idx[k + 1]);
        assert(forall|k: int| 0 <= k < dims.skip(1).len() ==> dims.skip(1)[k] == dims[k + 1]);
        lemma_first_out_of_range(dims.skip(1), idx.skip(1), i - 1);
    }
}

/// Whether every extent of a shape is at least 1. This holds of every shape
/// that some index tuple addresses, since coordinates are nonnegative.
pub open spec fn all_extents_positive(dims: Seq<usize>) -> bool {
    forall|i: int| 0 <= i < dims.len() ==> dims[i] >= 1
}

/// A shape whose extents are all positive has positive size.
pub proof fn lemma_shape_size_positive(dims: Seq<usize>)
    requires
        all_extents_positive(dims),
    ensures
        shape_size(dims) >= 1,
    decreases dims.len(),
{
    if dims.len() > 0 {
        assert(all_extents_positive(dims.skip(1))) by {
            assert(forall|i: int| 0 <= i < dims.skip(1).len() ==> dims.skip(1)[i] == dims[i + 1]);
        }
        lemma_shape_size_positive(dims.skip(1));
        assert((dims[0] as nat) * shape_size(dims.skip(1)) >= 1) by (nonlinear_arith)
            requires
                dims[0] >= 1,
                shape_size(dims.skip(1)) >= 1,
        ;
    }
}

/// Dropping leading dimensions of a shape with positive extents cannot
/// increase its size; in particular every stride is at most the size.
pub proof fn lemma_shape_size_skip_le(dims: Seq<usize>, i: int)
    requires
        all_extents_positive(dims),
        0 <= i <= dims.len(),
    ensures
        shape_size(dims.skip(i)) <= shape_size(dims),
    decreases i,
{
    if i == 0 {
        assert(dims.skip(0) =~= dims);
    } else {
        lemma_shape_size_skip_le(dims, i - 1);
        assert(dims.skip(i - 1).skip(1) =~= dims.skip(i));
        assert(dims.skip(i - 1)[0] == dims[i - 1]);
        assert(shape_size(dims.skip(i - 1)) == (dims[i - 1] as nat) * shape_size(dims.skip(i)));
        assert(shape_size(dims.skip(i)) <= (dims[i - 1] as nat) * shape_size(dims.skip(i)))
            by (nonlinear_arith)
            requires
                dims[i - 1] >= 1,
        ;
    }
}

/// An index tuple in bounds for a shape stays in bounds for the tails.
proof fn lemma_in_bounds_skip(dims: Seq<usize>, idx: Seq<usize>)
    requires
        index_in_bounds(dims, idx),
        idx.len() > 0,
    ensures
        index_in_bounds(dims.skip(1), idx.skip(1)),
        all_extents_positive(dims),
{
    assert(forall|i: int| 0 <= i < idx.skip(1).len() ==> idx.skip(1)[i] == idx[i + 1]);
    assert(forall|i: int| 0 <= i < dims.skip(1).len() ==> dims.skip(1)[i] == dims[i + 1]);
}

/// Range: every in-bounds index tuple resolves to an offset below the
/// shape's size.
pub proof fn lemma_flat_index_in_range(dims: Seq<usize>, idx: Seq<usize>)
    requires
        index_in_bounds(dims, idx),
    ensures
        flat_index(dims, idx) < shape_size(dims),
    decreases idx.len(),
{
    if idx.len() > 0 {
        lemma_in_bounds_skip(dims, idx);
        lemma_flat_index_in_range(dims.skip(1), idx.skip(1));
        let s = shape_size(dims.skip(1)) as int;
        let rest = flat_index(dims.skip(1), idx.skip(1)) as int;
        assert((idx[0] as int) * s + rest < (dims[0] as int) * s) by (nonlinear_arith)
            requires
                0 <= (idx[0] as int),
                (idx[0] as int) < (dims[0] as int),
                0 <= rest < s,
        ;
    }
}

/// Injectivity: two in-bounds index tuples with the same flat offset are
/// the same tuple, so distinct tuples resolve to distinct offsets.
pub proof fn lemma_flat_index_injective(dims: Seq<usize>, a: Seq<usize>, b: Seq<usize>)
    requires
        index_in_bounds(dims, a),
        index_in_bounds(dims, b),
        flat_index(dims, a) == flat_index(dims, b),
    ensures
        a == b,
    decreases a.len(),
{
    if a.len() == 0 {
        assert(a =~= b);
    } else {
        lemma_in_bounds_skip(dims, a);
        lemma_in_bounds_skip(dims, b);
        lemma_flat_index_in_range(dims.skip(1), a.skip(1));
        lemma_flat_index_in_range(dims.skip(1), b.skip(1));
        assert(all_extents_positive(dims.skip(1)));
        lemma_shape_size_positive(dims.skip(1));
        let s = shape_size(dims.skip(1)) as int;
        let o = flat_index(dims, a) as int;
        vstd::arithmetic::div_mod::lemma_fundamental_div_mod_converse(
            o,
            s,
            a[0] as int,
            flat_index(dims.skip(1), a.skip(1)) as int,
        );
        vstd::arithmetic::div_mod::lemma_fundamental_div_mod_converse(
            o,
            s,
            b[0] as int,
            flat_index(dims.skip(1), b.skip(1)) as int,
        );
        assert(a[0] == b[0]);
        lemma_flat_index_injective(dims.skip(1), a.skip(1), b.skip(1));
        assert(a =~= b) by {
            assert(forall|i: int| 1 <= i < a.len() ==> a[i] == a.skip(1)[i - 1]);
            assert(forall|i: int| 1 <= i < b.len() ==> b[i] == b.skip(1)[i - 1]);
        }
    }
}

/// Surjectivity: every offset below the shape's size is the flat offset of
/// some in-bounds index tuple. Together with range and injectivity this
/// makes offset resolution a bijection between the in-bounds index tuples
/// and the offsets below the shape's size.
pub proof fn lemma_flat_index_surjective(dims: Seq<usize>, o: nat)
    requires
        o < shape_size(dims),
    ensures
        exists|idx: Seq<usize>|
            #[trigger] index_in_bounds(dims, idx) && flat_index(dims, idx) == o,
    decreases dims.len(),
{
    if dims.len() == 0 {
        let w = Seq::<usize>::empty();
        assert(index_in_bounds(dims, w) && flat_index(dims, w) == o);
    } else {
        let d0 = dims[0] as int;
        let s = shape_size(dims.skip(1)) as int;
        assert(d0 >= 1 && s >= 1) by (nonlinear_arith)
            requires
                0 <= d0,
                0 <= s,
                d0 * s > 0,
        ;
        let q = (o as int) / s;
        let r = (o as int) % s;
        vstd::arithmetic::div_mod::lemma_fundamental_div_mod(o as int, s);
        vstd::arithmetic::div_mod::lemma_remainder_lower(o as int, s);
        vstd::arithmetic::div_mod::lemma_remainder_upper(o as int, s);
        vstd::arithmetic::div_mod::lemma_div_pos_is_pos(o as int, s);
        assert(q < d0) by (nonlinear_arith)
            requires
                q * s + r == o as int,
                (o as int) < d0 * s,
                0 <= r < s,
                0 <= q,
        ;
        lemma_flat_index_surjective(dims.skip(1), r as nat);
        let t = choose|t: Seq<usize>|
            #[trigger] index_in_bounds(dims.skip(1), t) && flat_index(dims.skip(1), t) == r as nat;
        let w = seq![q as usize] + t;
        assert(w.skip(1) =~= t);
        assert(w[0] == q as usize);
        assert(index_in_bounds(dims, w)) by {
            assert(forall|i: int| 1 <= i < w.len() ==> w[i] == t[i - 1]);
            assert(forall|i: int| 0 <= i < t.len() ==> dims.skip(1)[i] == dims[i + 1]);
        }
        assert(flat_index(dims, w) == (q as nat) * (s as nat) + r as nat);
        assert(index_in_bounds(dims, w) && flat_index(dims, w) == o);
    }
}

/// Resolves a multi-dimensional index tuple against a shape, yielding the
/// row-major flat offset of the addressed element.
///
/// A tuple whose arity differs from the shape's dimensionality is rejected,
/// as is a tuple with a coordinate at or above its dimension's extent; in
/// the latter case the first such dimension is named in the error.
pub fn resolve_index(dims: &Vec<usize>, idx: &Vec<usize>) -> (r: Result<usize, IndexError>)
    requires
        shape_size(dims@) <= usize::MAX,
    ensures
        r is Ok <==> index_in_bounds(dims@, idx@),
        r matches Ok(o) ==> o == flat_index(dims@, idx@),
        r matches Err(e) ==> e == index_error_of(dims@, idx@),
{
    let n = dims.len();
    if idx.len() != n {
        return Err(IndexError::WrongArity { expected: n, got: idx.len() });
    }
    let mut i: usize = 0;
    while i < n
        invariant
            n == dims@.len(),
            n == idx@.len(),
            0 <= i <= n,
            forall|k: int| 0 <= k < i ==> idx@[k] < dims@[k],
        decreases n - i,
    {
        if idx[i] >= dims[i] {
            proof {
                lemma_first_out_of_range(dims@, idx@, i as int);
            }
            return Err(IndexError::OutOfRange { dim: i, index: idx[i], extent: dims[i] });
        }
        i = i + 1;
    }
    assert(index_in_bounds(dims@, idx@));
    let mut offset: usize = 0;
    let mut stride: usize = 1;
    let mut j: usize = n;
    assert(dims@.skip(n as int) =~= Seq::<usize>::empty());
    assert(idx@.skip(n as int) =~= Seq::<usize>::empty());
    while j > 0
        invariant
            n == dims@.len(),
            n == idx@.len(),
            0 <= j <= n,
            index_in_bounds(dims@, idx@),
            shape_size(dims@) <= usize::MAX,
            stride == shape_size(dims@.skip(j as int)),
            offset == flat_index(dims@.skip(j as int), idx@.skip(j as int)),
        decreases j,
    {
        j = j - 1;
        proof {
            let jj = j as int;
            assert(dims@.skip(jj).skip(1) =~= dims@.skip(jj + 1));
            assert(idx@.skip(jj).skip(1) =~= idx@.skip(jj + 1));
            assert(index_in_bounds(dims@.skip(jj), idx@.skip(jj))) by {
                assert(forall|k: int|
                    0 <= k < idx@.skip(jj).len() ==> idx@.skip(jj)[k] == idx@[k + jj]);
                assert(forall|k: int|
                    0 <= k < dims@.skip(jj).len() ==> dims@.skip(jj)[k] == dims@[k + jj]);
            }
            lemma_flat_index_in_range(dims@.skip(jj), idx@.skip(jj));
            lemma_shape_size_skip_le(dims@, jj);
            assert(flat_index(dims@.skip(jj), idx@.skip(jj)) == (idx@[jj] as nat) * stride
                + offset);
            assert(shape_size(dims@.skip(jj)) == (dims@[jj] as nat) * stride);
        }
        offset = idx[j] * stride + offset;
        stride = dims[j] * stride;
    }
    assert(dims@.skip(0) =~= dims@);
    assert(idx@.skip(0) =~= idx@);
    Ok(offset)
}

} // verus!
