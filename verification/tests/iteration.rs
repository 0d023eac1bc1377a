use cons_list::list::ConsList;

fn list_from<T: Clone>(v: &[T]) -> ConsList<T> {
    ConsList::from_iter(v.iter().rev().map(|x| (*x).clone()))
}

fn generate_test() -> ConsList<i32> {
    list_from(&[0, 1, 2, 3, 4, 5, 6])
}

#[test]
fn test_iterator() {
    let m = generate_test();
    let mut walk = m.iter();
    let mut i = 0;
    while let Some(elt) = walk.next() {
        assert_eq!(i as i32, *elt);
        i += 1;
    }
    assert_eq!(i, 7);
    let mut n = ConsList::new();
    assert_eq!(n.iter().next(), None);
    n = n.append(4);
    let mut it = n.iter();
    assert_eq!(it.size_hint(), (1, Some(1)));
    assert_eq!(it.next().unwrap(), &4);
    assert_eq!(it.size_hint(), (0, Some(0)));
    assert_eq!(it.next(), None);
}

#[test]
fn test_iterator_clone() {
    let mut n = ConsList::new();
    n = n.append(1).append(2).append(3);
    let mut it = n.iter();
    it.next();
    let mut jt = it.clone();
    assert_eq!(it.next(), jt.next());
    assert_eq!(it.next(), jt.next());
}

#[test]
fn cloned_cursor_is_independent() {
    let n = list_from(&[10, 20, 30, 40]);
    let mut it = n.iter();
    assert_eq!(it.next(), Some(&10));
    let mut jt = it.clone();
    assert_eq!(it.next(), Some(&20));
    assert_eq!(it.next(), Some(&30));
    assert_eq!(it.size_hint(), (1, Some(1)));
    assert_eq!(jt.size_hint(), (3, Some(3)));
    assert_eq!(jt.next(), Some(&20));
    assert_eq!(jt.next(), Some(&30));
    assert_eq!(jt.next(), Some(&40));
    assert_eq!(jt.next(), None);
    assert_eq!(it.next(), Some(&40));
    assert_eq!(it.next(), None);
}

#[test]
fn size_hint_counts_down() {
    let n = list_from(&[1, 2, 3, 4, 5]);
    let mut it = n.iter();
    let mut left = 5;
    loop {
        assert_eq!(it.size_hint(), (left, Some(left)));
        if it.next().is_none() {
            break;
        }
        left -= 1;
    }
    assert_eq!(left, 0);
}

#[test]
fn exhausted_cursor_stays_exhausted() {
    let n = list_from(&[1]);
    let mut it = n.iter();
    assert_eq!(it.next(), Some(&1));
    assert_eq!(it.next(), None);
    assert_eq!(it.next(), None);
    assert_eq!(it.size_hint(), (0, Some(0)));
}

#[test]
fn iter_restarts_from_the_front() {
    let n = list_from(&[1, 2, 3]);
    let mut first = n.iter();
    assert_eq!(first.next(), Some(&1));
    assert_eq!(first.next(), Some(&2));
    let mut second = n.iter();
    assert_eq!(second.next(), Some(&1));
    assert_eq!(second.size_hint(), (2, Some(2)));
}
