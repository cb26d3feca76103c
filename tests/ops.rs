use arc_buffer::ArcBuffer;
use std::cmp::Ordering;

#[test]
fn pop_and_push() {
    let mut b = ArcBuffer::copy_from_slice(&[1, 2]);
    assert_eq!(b.pop(), Some(2));
    assert_eq!(b.pop(), Some(1));
    assert_eq!(b.pop(), None);
    assert_eq!(b.len(), 0);
    b.push(9);
    assert_eq!(b.as_slice(), &[9]);
}

#[test]
fn insert_shifts_right() {
    let mut b = ArcBuffer::copy_from_slice(&[1, 3]);
    b.insert(1, 2);
    b.insert(3, 4);
    b.insert(0, 0);
    assert_eq!(b.as_slice(), &[0, 1, 2, 3, 4]);
}

#[test]
fn remove_shifts_left() {
    let mut b = ArcBuffer::copy_from_slice(&[1, 2, 3, 4]);
    assert_eq!(b.remove(1), Some(2));
    assert_eq!(b.as_slice(), &[1, 3, 4]);
    assert_eq!(b.remove(3), None);
    assert_eq!(b.as_slice(), &[1, 3, 4]);
}

#[test]
fn swap_remove_moves_last() {
    let mut b = ArcBuffer::copy_from_slice(&[1, 2, 3, 4]);
    assert_eq!(b.swap_remove(0), Some(1));
    assert_eq!(b.as_slice(), &[4, 2, 3]);
    assert_eq!(b.swap_remove(2), Some(3));
    assert_eq!(b.as_slice(), &[4, 2]);
    assert_eq!(b.swap_remove(5), None);
    assert_eq!(b.as_slice(), &[4, 2]);
}

#[test]
fn extend_appends() {
    let mut b = ArcBuffer::copy_from_slice(&[1]);
    let c = b.clone();
    b.extend_from_slice(&[2, 3]);
    b.extend(vec![4]);
    assert_eq!(b.as_slice(), &[1, 2, 3, 4]);
    assert_eq!(c.as_slice(), &[1]);
}

#[test]
fn make_mut_and_set_copy_when_shared() {
    let mut a = ArcBuffer::copy_from_slice(&[1, 2, 3]);
    let b = a.clone();
    a.make_mut()[0] = 10;
    assert_eq!(a.as_slice(), &[10, 2, 3]);
    assert_eq!(b.as_slice(), &[1, 2, 3]);
    let mut c = b.clone();
    c.set(2, 30);
    assert_eq!(c.as_slice(), &[1, 2, 30]);
    assert_eq!(b.as_slice(), &[1, 2, 3]);
}

#[test]
fn mutating_an_unshared_buffer() {
    let mut a = ArcBuffer::copy_from_slice(&[1, 2, 3]);
    a.make_mut()[1] = 20;
    a.set(2, 30);
    assert_eq!(a.as_slice(), &[1, 20, 30]);
}

#[test]
fn reads_do_not_change_anything() {
    let a = ArcBuffer::copy_from_slice(&[5, 6, 7]);
    let b = a.clone();
    for _ in 0..3 {
        assert_eq!(*a.index(1), 6);
        assert_eq!(a.as_slice(), &[5, 6, 7]);
    }
    assert_eq!(b.as_slice(), &[5, 6, 7]);
}

#[test]
fn into_iter_copies_each_element() {
    let a = ArcBuffer::copy_from_slice(&[1, 2, 3]);
    let keep = a.clone();
    let mut it = a.into_iter();
    assert_eq!(it.size_hint(), (3, Some(3)));
    assert_eq!(it.next(), Some(1));
    assert_eq!(it.next(), Some(2));
    assert_eq!(it.size_hint(), (1, Some(1)));
    assert_eq!(it.next(), Some(3));
    assert_eq!(it.next(), None);
    assert_eq!(keep.as_slice(), &[1, 2, 3]);
}

#[test]
fn copy_to_new_is_independent() {
    let a = ArcBuffer::copy_from_slice(&[1, 2]);
    let mut b = a.copy_to_new();
    b.push(3);
    assert_eq!(a.as_slice(), &[1, 2]);
    assert_eq!(b.as_slice(), &[1, 2, 3]);
}

#[test]
fn eq_compares_elements() {
    let a = ArcBuffer::copy_from_slice(&[1, 2, 3]);
    assert!(a.eq(&[1, 2, 3]));
    assert!(!a.eq(&[1, 2]));
    assert!(!a.eq(&[1, 2, 4]));
    assert!(a.ne(&[3, 2, 1]));
    assert!(!a.ne(&[1, 2, 3]));
    let e: ArcBuffer<i32> = ArcBuffer::new();
    assert!(e.eq(&[]));
}

#[test]
fn partial_cmp_is_lexicographic() {
    let a = ArcBuffer::copy_from_slice(&[1, 2, 3]);
    assert_eq!(a.partial_cmp(&[1, 2, 3]), Some(Ordering::Equal));
    assert_eq!(a.partial_cmp(&[1, 3]), Some(Ordering::Less));
    assert_eq!(a.partial_cmp(&[1, 2]), Some(Ordering::Greater));
    assert_eq!(a.partial_cmp(&[1, 2, 3, 0]), Some(Ordering::Less));
    assert_eq!(a.partial_cmp(&[0, 9, 9]), Some(Ordering::Greater));
}
