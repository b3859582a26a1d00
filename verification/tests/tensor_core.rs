use tensor_core::indexing::{resolve_index, IndexError};
use tensor_core::storage::{FloatStorage, DEFAULT_ELEMENT};
use tensor_core::tensor::FloatTensor;

#[test]
fn it_works() {}

#[test]
fn resolves_row_major_example() {
    let dims = vec![2usize, 3usize];
    assert_eq!(resolve_index(&dims, &vec![1, 2]), Ok(5));
    assert_eq!(resolve_index(&dims, &vec![0, 0]), Ok(0));
    assert_eq!(
        resolve_index(&dims, &vec![2, 0]),
        Err(IndexError::OutOfRange { dim: 0, index: 2, extent: 2 })
    );
    assert_eq!(
        resolve_index(&dims, &vec![1]),
        Err(IndexError::WrongArity { expected: 2, got: 1 })
    );
}

#[test]
fn resolves_three_dimensions() {
    // shape [4, 3, 2]: strides are [6, 2, 1]
    let dims = vec![4usize, 3usize, 2usize];
    assert_eq!(resolve_index(&dims, &vec![0, 0, 0]), Ok(0));
    assert_eq!(resolve_index(&dims, &vec![0, 0, 1]), Ok(1));
    assert_eq!(resolve_index(&dims, &vec![0, 1, 0]), Ok(2));
    assert_eq!(resolve_index(&dims, &vec![1, 0, 0]), Ok(6));
    assert_eq!(resolve_index(&dims, &vec![3, 2, 1]), Ok(23));
}

#[test]
fn wrong_arity_fails_for_every_other_arity() {
    let dims = vec![2usize, 3usize];
    for arity in [0usize, 1, 3, 4, 7] {
        let idx = vec![0usize; arity];
        assert_eq!(
            resolve_index(&dims, &idx),
            Err(IndexError::WrongArity { expected: 2, got: arity })
        );
    }
}

#[test]
fn coordinate_at_extent_fails() {
    let dims = vec![2usize, 3usize];
    assert_eq!(
        resolve_index(&dims, &vec![0, 3]),
        Err(IndexError::OutOfRange { dim: 1, index: 3, extent: 3 })
    );
    assert_eq!(
        resolve_index(&dims, &vec![1, 5]),
        Err(IndexError::OutOfRange { dim: 1, index: 5, extent: 3 })
    );
    // the first out-of-range dimension is the one reported
    assert_eq!(
        resolve_index(&dims, &vec![9, 9]),
        Err(IndexError::OutOfRange { dim: 0, index: 9, extent: 2 })
    );
}

#[test]
fn zero_extent_shape_has_no_elements() {
    let dims = vec![2usize, 0usize];
    let t = FloatTensor::sized(dims);
    assert_eq!(t.len(), 0);
    assert_eq!(
        t.get(&vec![0, 0]),
        Err(IndexError::OutOfRange { dim: 1, index: 0, extent: 0 })
    );
}

#[test]
fn storage_sized_yields_exactly_n_default_elements() {
    let s = FloatStorage::sized(7);
    assert_eq!(s.len(), 7);
    let mut count = 0usize;
    for v in s.elements().iter() {
        assert_eq!(*v, DEFAULT_ELEMENT);
        count += 1;
    }
    assert_eq!(count, 7);
}

#[test]
fn storage_new_is_empty() {
    let s = FloatStorage::new();
    assert_eq!(s.len(), 0);
    assert!(s.elements().is_empty());
}

#[test]
fn storage_set_then_get() {
    let mut s = FloatStorage::sized(3);
    s.set(1, 0x3f80_0000);
    assert_eq!(s.get(0), DEFAULT_ELEMENT);
    assert_eq!(s.get(1), 0x3f80_0000);
    assert_eq!(s.get(2), DEFAULT_ELEMENT);
}

#[test]
fn tensor_sized_shape_and_elements() {
    let t = FloatTensor::sized(vec![2, 3]);
    assert_eq!(t.extents().as_slice(), &[2usize, 3usize]);
    assert_eq!(t.len(), 6);
    assert_eq!(t.elements().len(), 6);
    for v in t.elements().iter() {
        assert_eq!(*v, DEFAULT_ELEMENT);
    }
}

#[test]
fn tensor_set_then_get_round_trip() {
    let mut t = FloatTensor::sized(vec![2, 3]);
    let pattern = 2.5f32.to_bits();
    assert_eq!(t.set(&vec![1, 2], pattern), Ok(()));
    assert_eq!(t.get(&vec![1, 2]), Ok(pattern));
    assert_eq!(f32::from_bits(t.get(&vec![1, 2]).unwrap()), 2.5f32);
    // every other element is untouched
    for i in 0..2usize {
        for j in 0..3usize {
            if (i, j) != (1, 2) {
                assert_eq!(t.get(&vec![i, j]), Ok(DEFAULT_ELEMENT));
            }
        }
    }
    // the write landed at flat offset 1*3+2 = 5
    assert_eq!(t.elements()[5], pattern);
}

#[test]
fn tensor_set_rejects_what_get_rejects() {
    let mut t = FloatTensor::sized(vec![2, 3]);
    assert_eq!(
        t.set(&vec![0, 3], 1),
        Err(IndexError::OutOfRange { dim: 1, index: 3, extent: 3 })
    );
    assert_eq!(
        t.set(&vec![0], 1),
        Err(IndexError::WrongArity { expected: 2, got: 1 })
    );
    // a failed write leaves the tensor unchanged
    for v in t.elements().iter() {
        assert_eq!(*v, DEFAULT_ELEMENT);
    }
}

#[test]
fn rank_zero_tensor_holds_one_element() {
    let mut t = FloatTensor::new();
    assert_eq!(t.extents().len(), 0);
    assert_eq!(t.len(), 1);
    assert_eq!(t.offset_of(&vec![]), Ok(0));
    assert_eq!(t.get(&vec![]), Ok(DEFAULT_ELEMENT));
    assert_eq!(t.set(&vec![], 42), Ok(()));
    assert_eq!(t.get(&vec![]), Ok(42));
    assert_eq!(
        t.get(&vec![0]),
        Err(IndexError::WrongArity { expected: 0, got: 1 })
    );
}

#[test]
fn offsets_cover_every_position_exactly_once() {
    let dims = vec![2usize, 3usize, 4usize];
    let size = 2 * 3 * 4;
    let mut seen = vec![0usize; size];
    for i in 0..2usize {
        for j in 0..3usize {
            for k in 0..4usize {
                let o = resolve_index(&dims, &vec![i, j, k]).unwrap();
                assert!(o < size);
                seen[o] += 1;
            }
        }
    }
    for c in seen {
        assert_eq!(c, 1);
    }
}
