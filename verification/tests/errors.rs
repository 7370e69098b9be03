use snippets::collections;
use snippets::errors::{fallible, StringError, StringifiedError};
use std::collections::hash_map::Entry;
use std::collections::HashMap;
use std::convert::TryFrom;
use std::fmt::Display;

fn wrap_stringified<F, T, E>(f: F) -> Result<T, StringifiedError>
where
    F: Fn() -> Result<T, E>,
    StringifiedError: From<E>,
{
    Ok(f()?)
}

fn stringify_stringified<T>(res: Result<T, StringifiedError>) -> String
where
    T: Display,
{
    match res {
        Ok(val) => format!("Success: {}", val),
        Err(err) => format!("Error: {}", err.to_string()),
    }
}

fn wrap<F, T, E>(f: F) -> Result<T, StringError>
where
    F: Fn() -> Result<T, E>,
    StringError: From<E>,
{
    Ok(f()?)
}

fn stringify<T>(res: Result<T, StringError>) -> String
where
    T: Display,
{
    match res {
        Ok(val) => format!("Success: {}", val),
        Err(err) => format!("Error: {}", err.to_string()),
    }
}

#[test]
fn newtype_string_wrapping_works() {
    assert!(wrap_stringified(|| "42".parse::<i32>()).is_ok());

    assert!(wrap_stringified(|| "fx".parse::<i32>()).is_err());
    assert!(wrap_stringified(|| u8::try_from(-42)).is_err());
}

#[test]
fn newtype_string_stringifying_works() {
    assert_eq!(
        "Success: 42",
        stringify_stringified(wrap_stringified(|| "42".parse::<i32>()))
    );

    assert_eq!(
        "Error: invalid digit found in string",
        stringify_stringified(wrap_stringified(|| "fx".parse::<i32>()))
    );
    assert_eq!(
        "Error: out of range integral type conversion attempted",
        stringify_stringified(wrap_stringified(|| u8::try_from(-42)))
    );
}

#[test]
fn newtype_string_error_wrapping_works() {
    assert!(wrap(|| "42".parse::<i32>()).is_ok());

    assert!(wrap(|| "fx".parse::<i32>()).is_err());
    assert!(wrap(|| u8::try_from(-42)).is_err());
}

#[test]
fn newtype_string_error_stringifying_works() {
    assert_eq!("Success: 42", stringify(wrap(|| "42".parse::<i32>())));

    assert_eq!(
        "Error: invalid digit found in string",
        stringify(wrap(|| "fx".parse::<i32>()))
    );
    assert_eq!(
        "Error: out of range integral type conversion attempted",
        stringify(wrap(|| u8::try_from(-42)))
    );
}

fn fallback_error(err: &str) -> std::io::Error {
    std::io::Error::new(std::io::ErrorKind::Other, err)
}

#[test]
fn io_errors_keep_their_message() {
    let wrapped: StringError = fallback_error("disk on fire").into();
    assert_eq!(wrapped.to_string(), "disk on fire");
    let wrapped: StringifiedError = fallback_error("disk on fire").into();
    assert_eq!(wrapped.to_string(), "disk on fire");
    assert_eq!(StringError::default().to_string(), "");
}

#[test]
fn testing_smoke_test() {
    assert_eq!(fallible(42).unwrap(), 42);
}

#[test]
fn fallible_fails_on_anything_but_42() {
    let err = fallible(3).unwrap_err();
    assert_eq!(err.kind(), std::io::ErrorKind::Other);
    assert_eq!(err.to_string(), "oh no!");
    assert!(fallible(-42).is_err());
}

fn get_or_insert<'a>(
    map: &'a mut HashMap<String, i32>,
    key: String,
) -> Result<&'a i32, &'static str> {
    Ok(match map.entry(key) {
        Entry::Occupied(e) => e.into_mut(),
        Entry::Vacant(e) => {
            let value = collections::fallible(e.key())?;
            e.insert(value)
        }
    })
}

#[test]
fn foo() {
    let mut map = HashMap::new();

    assert_eq!(get_or_insert(&mut map, String::from("foo")), Ok(&42));
    assert_eq!(get_or_insert(&mut map, String::from("bar")), Err("forbidden key"));
}

#[test]
fn only_foo_is_allowed() {
    assert_eq!(collections::fallible("foo"), Ok(42));
    assert_eq!(collections::fallible("fo"), Err("forbidden key"));
    assert_eq!(collections::fallible(""), Err("forbidden key"));
}
