use cons_list::list::ConsList;
use cons_list::render::bracket;
use std::fmt;

struct Fussy(u8);

impl fmt::Debug for Fussy {
    fn fmt(&self, f: &mut fmt::Formatter<'_>) -> fmt::Result {
        if self.0 == 0 {
            Err(fmt::Error)
        } else {
            f.write_str("ok")
        }
    }
}

#[test]
fn test_debug() {
    let list: ConsList<i32> = ConsList::from_iter((0..10).rev());
    assert_eq!(list.to_debug_string().unwrap(), "[0, 1, 2, 3, 4, 5, 6, 7, 8, 9]");

    let list: ConsList<&str> =
        ConsList::from_iter(vec!["just", "one", "test", "more"].iter().rev().map(|&s| s));
    assert_eq!(list.to_debug_string().unwrap(), r#"["just", "one", "test", "more"]"#);
}

#[test]
fn debug_of_descending_list() {
    let list: ConsList<i32> = ConsList::from_iter(0..10);
    assert_eq!(list.to_debug_string().unwrap(), "[9, 8, 7, 6, 5, 4, 3, 2, 1, 0]");
}

#[test]
fn debug_of_empty_and_single() {
    let none: ConsList<u8> = ConsList::new();
    assert_eq!(none.to_debug_string(), Some(String::from("[]")));
    let one = none.append(5u8);
    assert_eq!(one.to_debug_string(), Some(String::from("[5]")));
    let nested = ConsList::new().append(Some('x')).append(None);
    assert_eq!(nested.to_debug_string(), Some(String::from("[None, Some('x')]")));
}

#[test]
fn bracket_joins_with_comma_and_space() {
    assert_eq!(bracket(&Vec::new()), "[]");
    assert_eq!(bracket(&vec![String::from("a")]), "[a]");
    assert_eq!(bracket(&vec![String::from("a"), String::from("b")]), "[a, b]");
    assert_eq!(
        bracket(&vec![String::from(""), String::from("x y"), String::from("")]),
        "[, x y, ]"
    );
}

#[test]
fn debug_fails_where_an_element_fails() {
    let good = ConsList::new().append(Fussy(1)).append(Fussy(2));
    assert_eq!(good.to_debug_string(), Some(String::from("[ok, ok]")));
    let bad = good.append(Fussy(0));
    assert_eq!(bad.to_debug_string(), None);
    let bad_last = ConsList::new().append(Fussy(0)).append(Fussy(3));
    assert_eq!(bad_last.to_debug_string(), None);
    let none: ConsList<Fussy> = ConsList::new();
    assert_eq!(none.to_debug_string(), Some(String::from("[]")));
}
