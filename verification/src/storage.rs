//! Flat storage for tensor elements.
//!
//! A `FloatStorage` owns a contiguous buffer of scalar elements. Each
//! element is held as the raw 32-bit pattern of a single-precision value,
//! so that contracts can speak about the stored words directly; reading a
//! pattern back as a number is the caller's concern. A freshly allocated
//! buffer is filled with the default pattern, which is zero (the pattern of
//! positive zero).

use vstd::prelude::*;

verus! {

/// The bit pattern every freshly allocated element starts with.
pub const DEFAULT_ELEMENT: u32 = 0;

/// An owning, growable-only-at-construction buffer of scalar elements,
/// viewed as the sequence of their 32-bit patterns.
pub struct FloatStorage {
    data: Vec<u32>,
}

impl View for FloatStorage {
    type V = Seq<u32>;

    closed spec fn view(&self) -> Seq<u32> {
        self.data@
    }
}

impl FloatStorage {
    /// An empty storage holding no elements.
    pub fn new() -> (s: Self)
        ensures
            s@ =~= Seq::<u32>::empty(),
    {
        FloatStorage { data: Vec::new() }
    }

    /// A storage of exactly `len` elements, all holding the default pattern.
    pub fn sized(len: usize) -> (s: Self)
        ensures
            s@.len() == len,
            forall|i: int| 0 <= i < len ==> s@[i] == DEFAULT_ELEMENT,
    {
        let mut data: Vec<u32> = Vec::new();
        let mut k: usize = 0;
        while k < len
            invariant
                0 <= k <= len,
                data@.len() == k,
                forall|i: int| 0 <= i < k ==> data@[i] == DEFAULT_ELEMENT,
            decreases len - k,
        {
            data.push(DEFAULT_ELEMENT);
            k = k + 1;
        }
        FloatStorage { data }
    }

    /// The number of elements the storage holds.
    pub fn len(&self) -> (n: usize)
        ensures
            n == self@.len(),
    {
        self.data.len()
    }

    /// The pattern stored at position `i`.
    pub fn get(&self, i: usize) -> (v: u32)
        requires
            i < self@.len(),
        ensures
            v == self@[i as int],
    {
        self.data[i]
    }

    /// Overwrites the pattern at position `i`, leaving all others in place.
    pub fn set(&mut self, i: usize, v: u32)
        requires
            i < old(self)@.len(),
        ensures
            final(self)@ =~= old(self)@.update(i as int, v),
    {
        self.data.set(i, v);
    }

    /// The stored patterns in buffer order.
    pub fn elements(&self) -> (r: &Vec<u32>)
        ensures
            r@ == self@,
    {
        &self.data
    }
}

} // verus!
