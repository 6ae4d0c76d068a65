//! Tests for the stack-or-heap list.

use modmod::solutions::storage::LocalStorageVec;

#[test]
fn it_lens() {
    let vec: LocalStorageVec<_, 3> = LocalStorageVec::from_elements(&[0, 1, 2]);
    assert_eq!(vec.len(), 3);
    let vec: LocalStorageVec<_, 2> = LocalStorageVec::from_elements(&[0, 1, 2]);
    assert_eq!(vec.len(), 3);
}

#[test]
fn it_pops() {
    let mut vec: LocalStorageVec<_, 128> = LocalStorageVec::from_elements(&[0; 128]);
    for _ in 0..128 {
        assert_eq!(vec.pop(), Some(0))
    }
    assert_eq!(vec.pop(), None);

    let mut vec: LocalStorageVec<_, 128> = LocalStorageVec::from_elements(&[0; 256]);
    for _ in 0..256 {
        assert_eq!(vec.pop(), Some(0))
    }
    assert_eq!(vec.pop(), None);

    let heap_input = vec![0; 256];
    let mut vec: LocalStorageVec<_, 128> = LocalStorageVec::from_elements(&heap_input);
    for _ in 0..256 {
        assert_eq!(vec.pop(), Some(0))
    }
    assert_eq!(vec.pop(), None);
}

#[test]
fn it_inserts() {
    let mut vec: LocalStorageVec<_, 4> = LocalStorageVec::from_elements(&[0, 1, 2]);
    vec.insert(1, 3);
    assert!(matches!(
        vec,
        LocalStorageVec::Stack {
            buf: [0, 3, 1, 2],
            len: 4
        }
    ));

    let mut vec: LocalStorageVec<_, 4> = LocalStorageVec::from_elements(&[0, 1, 2, 3]);
    vec.insert(1, 3);
    assert!(matches!(vec, LocalStorageVec::Heap { .. }));
    assert_eq!(vec.to_vec(), &[0, 3, 1, 2, 3]);

    let mut vec: LocalStorageVec<_, 4> = LocalStorageVec::from_elements(&[0, 1, 2, 3, 4]);
    vec.insert(1, 3);
    assert!(matches!(vec, LocalStorageVec::Heap { .. }));
    assert_eq!(vec.to_vec(), &[0, 3, 1, 2, 3, 4])
}

#[test]
fn it_removes() {
    let mut vec: LocalStorageVec<_, 4> = LocalStorageVec::from_elements(&[0, 1, 2]);
    let elem = vec.remove(1);
    assert!(matches!(
        vec,
        LocalStorageVec::Stack {
            buf: [0, 2, _, _],
            len: 2
        }
    ));
    assert_eq!(elem, 1);

    let mut vec: LocalStorageVec<_, 2> = LocalStorageVec::from_elements(&[0, 1, 2]);
    let elem = vec.remove(1);
    assert!(matches!(vec, LocalStorageVec::Heap(..)));
    assert_eq!(vec.to_vec(), &[0, 2]);
    assert_eq!(elem, 1);
}

#[test]
fn it_iters() {
    let vec: LocalStorageVec<_, 128> = LocalStorageVec::from_elements(&[0; 128]);
    let mut iter = vec.into_iter();
    while let Some(item) = iter.next() {
        assert_eq!(item, 0);
    }
    assert_eq!(iter.next(), None);

    let heap_input = vec![0; 128];
    let vec: LocalStorageVec<_, 128> = LocalStorageVec::from_elements(&heap_input);
    let mut iter = vec.into_iter();
    while let Some(item) = iter.next() {
        assert_eq!(item, 0);
    }
    assert_eq!(iter.next(), None);
}
