use std::collections::HashMap;
use std::rc::Rc;

#[derive(Debug)]
struct Pair<K, V> {
    key: K,
    value: V,
}

#[test]
fn by_cloning() {
    let mut map = HashMap::new();

    {
        let foo = Pair {
            key: String::from("foo"),
            value: 42,
        };

        map.insert(foo.key.clone(), foo);
    }

    assert_eq!(map["foo"].value, 42);
}

#[test]
fn by_not_owning_either() {
    let mut map = HashMap::new();

    let foo = Pair {
        key: String::from("foo"),
        value: 42,
    };

    map.insert(&foo.key[..], &foo);

    assert_eq!(map["foo"].value, 42);
}

#[test]
fn by_using_rc() {
    let mut map = HashMap::new();

    {
        let foo = Pair {
            key: Rc::new(String::from("foo")),
            value: 42,
        };

        map.insert(Rc::clone(&foo.key), foo);
    }

    assert_eq!(map[&String::from("foo")].value, 42);

    // check the RC counts before and after removing from the map
    let key = Rc::clone(map.keys().nth(0).unwrap());
    assert_eq!(Rc::strong_count(&key), 3); // local key + map key and value.key
    map.remove(&key);
    assert_eq!(Rc::strong_count(&key), 1); // only local key
}

#[test]
fn vanilla_works() {
    let some_data = vec![1, 2, 3];

    let res = match &some_data[..] {
        &[foo, bar, baz] => Ok((foo, bar, baz)),
        _ => Err("wrong slice length"),
    };

    assert_eq!(res, Ok((1, 2, 3)));
}

#[test]
fn vanilla_catches_errors() {
    let some_data = vec![1, 2, 3];

    let fail = match &some_data[..] {
        [foo, bar] => Ok((foo, bar)),
        _ => Err("wrong slice length"),
    };
    assert_eq!(fail, Err("wrong slice length"));
}

#[test]
fn vanilla_rust_match_works() {
    let some_data = vec![1, 2, 3];

    let res = match &some_data[..] {
        &[foo, bar, baz] => Ok((foo, bar, baz)),
        _ => Err("wrong slice length"),
    };

    assert_eq!(res, Ok((1, 2, 3)));
}

#[test]
fn vanilla_rust_match_catches_errors() {
    let some_data = vec![1, 2, 3];

    let fail = match &some_data[..] {
        [foo, bar] => Ok((foo, bar)),
        _ => Err("wrong slice length"),
    };
    assert_eq!(fail, Err("wrong slice length"));
}

fn keep_non_negative(input: Option<i32>) -> Option<i32> {
    input.filter(|&x| x >= 0)
}

#[test]
fn options_rewrite_foo() {
    assert_eq!(keep_non_negative(None), None);
    assert_eq!(keep_non_negative(Some(-1)), None);
    assert_eq!(keep_non_negative(Some(42)), Some(42));
}

fn some_or_unit(input: Option<i32>) -> Result<i32, ()> {
    input.ok_or(())
}

#[test]
fn options_rewrite_bar() {
    assert_eq!(some_or_unit(Some(42)), Ok(42));
    assert_eq!(some_or_unit(None), Err(()));
}

#[test]
fn primitive_for_impl() {
    let mut out = vec![];

    let vec = vec![0, 1, 2, 3];
    let mut iter = (&vec).into_iter();
    loop {
        match iter.next() {
            Some(v) => out.push(format!("{}", v)),
            None => break,
        }
    }

    assert_eq!(out, vec!["0", "1", "2", "3"]);
}
