use cons_list::list::ConsList;
use std::cmp::Ordering;
use std::collections::hash_map::DefaultHasher;
use std::hash::{Hash, Hasher};

fn list_from<T: Clone>(v: &[T]) -> ConsList<T> {
    ConsList::from_iter(v.iter().rev().map(|x| (*x).clone()))
}

fn hash_of<T: Hash>(value: &T) -> u64 {
    let mut h = DefaultHasher::new();
    value.hash(&mut h);
    h.finish()
}

#[test]
fn test_eq() {
    let mut n: ConsList<u8> = list_from(&[]);
    let mut m = list_from(&[]);
    assert!(n == m);
    n = n.append(1);
    assert!(n != m);
    m = m.append(1);
    assert!(n == m);

    let n = list_from(&[2, 3, 4]);
    let m = list_from(&[1, 2, 3]);
    assert!(n != m);
}

#[test]
#[allow(deprecated)]
fn test_hash() {
    let mut x = ConsList::new();
    let mut y = ConsList::new();

    let mut h = std::hash::SipHasher::new();

    assert!(Hash::hash(&x, &mut h) == Hash::hash(&y, &mut h));

    x = x.append(1).append(2).append(3);
    y = y.append(1).append(4).tail().append(2).append(3);

    assert!(Hash::hash(&x, &mut h) == Hash::hash(&y, &mut h));
}

#[test]
fn test_ord() {
    let n = list_from(&[]);
    let m = list_from(&[1, 2, 3]);
    assert!(n < m);
    assert!(m > n);
    assert!(n <= n);
    assert!(n >= n);
}

#[test]
fn test_ord_nan() {
    let nan = 0.0f64 / 0.0;
    let n = list_from(&[nan]);
    let m = list_from(&[nan]);
    assert!(!(n < m));
    assert!(!(n > m));
    assert!(!(n <= m));
    assert!(!(n >= m));

    let n = list_from(&[nan]);
    let one = list_from(&[1.0f64]);
    assert!(!(n < one));
    assert!(!(n > one));
    assert!(!(n <= one));
    assert!(!(n >= one));

    let u = list_from(&[1.0f64, 2.0, nan]);
    let v = list_from(&[1.0f64, 2.0, 3.0]);
    assert!(!(u < v));
    assert!(!(u > v));
    assert!(!(u <= v));
    assert!(!(u >= v));

    let s = list_from(&[1.0f64, 2.0, 4.0, 2.0]);
    let t = list_from(&[1.0f64, 2.0, 3.0, 2.0]);
    assert!(!(s < t));
    assert!(s > one);
    assert!(!(s <= one));
    assert!(s >= one);
}

#[test]
fn same_sequence_by_other_insertions_is_equal() {
    let x = ConsList::new().append(1).append(2).append(3);
    let y = ConsList::new().append(1).append(4).tail().append(2).append(3);
    let z = list_from(&[3, 2, 1]);
    assert!(x == y);
    assert!(y == x);
    assert!(x == z);
    assert!(!(x != y));
    assert_eq!(hash_of(&x), hash_of(&y));
    assert_eq!(hash_of(&x), hash_of(&z));
}

#[test]
fn different_lengths_are_never_equal() {
    let short = list_from(&[1, 2]);
    let long = list_from(&[1, 2, 3]);
    let none: ConsList<i32> = ConsList::new();
    assert!(short != long);
    assert!(long != short);
    assert!(!(short == long));
    assert!(none != short);
    assert!(!(none == short));
}

#[test]
fn ne_is_the_negation_of_eq() {
    let a = list_from(&[1, 2, 3]);
    let b = list_from(&[1, 9, 3]);
    let c = list_from(&[7, 8, 9]);
    assert!(a != b);
    assert!(!(a == b));
    assert!(a != c);
    assert!(!(a == c));
    assert!(!(a != a.clone()));
    assert!(a == a.clone());
}

#[test]
fn hash_feeds_length_then_elements() {
    let list = list_from(&[30u32, 20, 10]);
    let mut expected = DefaultHasher::new();
    3usize.hash(&mut expected);
    30u32.hash(&mut expected);
    20u32.hash(&mut expected);
    10u32.hash(&mut expected);
    assert_eq!(hash_of(&list), expected.finish());

    let none: ConsList<u32> = ConsList::new();
    let mut expected = DefaultHasher::new();
    0usize.hash(&mut expected);
    assert_eq!(hash_of(&none), expected.finish());
}

#[test]
fn hash_tells_order_and_length_apart() {
    assert_ne!(hash_of(&list_from(&[1, 2, 3])), hash_of(&list_from(&[3, 2, 1])));
    assert_ne!(hash_of(&list_from(&[1, 2])), hash_of(&list_from(&[1, 2, 3])));
}

#[test]
fn lexicographic_order() {
    let none: ConsList<i32> = ConsList::new();
    assert!(none < list_from(&[0]));
    assert!(none < list_from(&[-5, 1]));
    assert!(list_from(&[1, 2, 3]) < list_from(&[1, 2, 4]));
    assert!(list_from(&[1, 2]) < list_from(&[1, 2, 3]));
    assert!(list_from(&[1, 2, 4]) > list_from(&[1, 2, 3]));
    assert!(list_from(&[2]) > list_from(&[1, 9, 9]));
    assert!(list_from(&[1, 2, 3]) <= list_from(&[1, 2, 3]));
    assert!(list_from(&[1, 2, 3]) >= list_from(&[1, 2, 3]));
}

#[test]
fn partial_cmp_values() {
    let none: ConsList<i32> = ConsList::new();
    assert_eq!(none.partial_cmp(&none), Some(Ordering::Equal));
    assert_eq!(none.partial_cmp(&list_from(&[1])), Some(Ordering::Less));
    assert_eq!(list_from(&[1]).partial_cmp(&none), Some(Ordering::Greater));
    assert_eq!(list_from(&[1, 2]).partial_cmp(&list_from(&[1, 2])), Some(Ordering::Equal));
    assert_eq!(list_from(&[1, 3]).partial_cmp(&list_from(&[1, 2, 7])), Some(Ordering::Greater));
    assert_eq!(list_from(&[1, 1]).partial_cmp(&list_from(&[1, 2])), Some(Ordering::Less));
}

#[test]
fn incomparable_pair_after_equal_pairs() {
    let nan = f64::NAN;
    let a = list_from(&[1.0, 2.0, nan, 5.0]);
    let b = list_from(&[1.0, 2.0, 3.0]);
    assert_eq!(a.partial_cmp(&b), None);
    assert_eq!(b.partial_cmp(&a), None);
}

#[test]
fn earlier_pair_decides_before_an_incomparable_one() {
    let nan = f64::NAN;
    let a = list_from(&[1.0, nan]);
    let b = list_from(&[2.0, 0.0]);
    assert_eq!(a.partial_cmp(&b), Some(Ordering::Less));
    assert!(a < b);
    assert!(b > a);
}
