//! Row-major tensor storage and indexing.
//!
//! A [`storage::FloatStorage`] owns a flat buffer of scalar elements, and a
//! [`tensor::FloatTensor`] gives that buffer a shape: an ordered sequence of
//! per-dimension extents. The heart of the crate is the resolution of a
//! multi-dimensional index tuple to a flat offset into the buffer, using the
//! standard row-major stride formula, together with proofs that this
//! resolution is a bijection between in-bounds index tuples and the offsets
//! below the tensor's size.

pub mod indexing;
pub mod storage;
pub mod tensor;
