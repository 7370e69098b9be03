//! Toy error models built on a plain string, and a fallible function to try
//! them on.

use vstd::prelude::*;
use vstd::std_specs::convert::FromSpecImpl;
use vstd::string::to_string_from_display_ensures;

verus! {

/// `std::io::Error`, carried through as it is: nothing is said of what is
/// inside.
#[verifier::external_type_specification]
#[verifier::external_body]
pub struct ExIoError(std::io::Error);

/// `std::num::ParseIntError`, carried through as it is.
#[verifier::external_type_specification]
#[verifier::external_body]
pub struct ExParseIntError(std::num::ParseIntError);

/// A string that supports the question mark operator: the errors of std's
/// integer parsing, integer conversion and I/O turn into one, and after that
/// are nothing but their message.
#[derive(Clone, Eq, PartialEq, Ord, PartialOrd, Hash, Debug, Default)]
pub struct StringifiedError(String);

impl View for StringifiedError {
    type V = Seq<char>;

    closed spec fn view(&self) -> Seq<char> {
        self.0@
    }
}

impl StringifiedError {
    /// The string inside.
    pub closed spec fn text(&self) -> String {
        self.0
    }

    /// The message.
    pub fn to_string(&self) -> (message: String)
        ensures
            message@ == self@,
    {
        self.0.clone()
    }
}

impl FromSpecImpl<std::num::ParseIntError> for StringifiedError {
    open spec fn obeys_from_spec() -> bool {
        false
    }

    open spec fn from_spec(err: std::num::ParseIntError) -> Self {
        arbitrary()
    }
}

impl From<std::num::ParseIntError> for StringifiedError {
    /// Keeps what the error displays, and nothing else of it.
    fn from(err: std::num::ParseIntError) -> (wrapped: Self)
        ensures
            to_string_from_display_ensures::<std::num::ParseIntError>(&err, wrapped.text()),
    {
        StringifiedError(err.to_string())
    }
}

impl FromSpecImpl<std::num::TryFromIntError> for StringifiedError {
    open spec fn obeys_from_spec() -> bool {
        false
    }

    open spec fn from_spec(err: std::num::TryFromIntError) -> Self {
        arbitrary()
    }
}

impl From<std::num::TryFromIntError> for StringifiedError {
    /// Keeps what the error displays, and nothing else of it.
    fn from(err: std::num::TryFromIntError) -> (wrapped: Self)
        ensures
            to_string_from_display_ensures::<std::num::TryFromIntError>(&err, wrapped.text()),
    {
        StringifiedError(err.to_string())
    }
}

impl FromSpecImpl<std::io::Error> for StringifiedError {
    open spec fn obeys_from_spec() -> bool {
        false
    }

    open spec fn from_spec(err: std::io::Error) -> Self {
        arbitrary()
    }
}

impl From<std::io::Error> for StringifiedError {
    /// Keeps what the error displays, and nothing else of it.
    fn from(err: std::io::Error) -> (wrapped: Self)
        ensures
            to_string_from_display_ensures::<std::io::Error>(&err, wrapped.text()),
    {
        StringifiedError(err.to_string())
    }
}

/// Marks the foreign errors that a [`StringError`] is made from.
pub trait ExpectedExternalError {

}

impl ExpectedExternalError for std::num::ParseIntError {

}

impl ExpectedExternalError for std::num::TryFromIntError {

}

impl ExpectedExternalError for std::io::Error {

}

impl ExpectedExternalError for String {

}

impl ExpectedExternalError for &str {

}

/// A string error that supports the question mark operator, for the errors
/// that were marked as expected.
#[derive(Clone, Eq, PartialEq, Ord, PartialOrd, Hash, Debug, Default)]
pub struct StringError(String);

impl View for StringError {
    type V = Seq<char>;

    closed spec fn view(&self) -> Seq<char> {
        self.0@
    }
}

impl StringError {
    /// The string inside.
    pub closed spec fn text(&self) -> String {
        self.0
    }

    /// The message.
    pub fn to_string(&self) -> (message: String)
        ensures
            message@ == self@,
    {
        self.0.clone()
    }
}

impl FromSpecImpl<std::num::ParseIntError> for StringError {
    open spec fn obeys_from_spec() -> bool {
        false
    }

    open spec fn from_spec(err: std::num::ParseIntError) -> Self {
        arbitrary()
    }
}

impl From<std::num::ParseIntError> for StringError {
    /// Keeps what the error displays, and nothing else of it.
    fn from(err: std::num::ParseIntError) -> (wrapped: Self)
        ensures
            to_string_from_display_ensures::<std::num::ParseIntError>(&err, wrapped.text()),
    {
        StringError(err.to_string())
    }
}

impl FromSpecImpl<std::num::TryFromIntError> for StringError {
    open spec fn obeys_from_spec() -> bool {
        false
    }

    open spec fn from_spec(err: std::num::TryFromIntError) -> Self {
        arbitrary()
    }
}

impl From<std::num::TryFromIntError> for StringError {
    /// Keeps what the error displays, and nothing else of it.
    fn from(err: std::num::TryFromIntError) -> (wrapped: Self)
        ensures
            to_string_from_display_ensures::<std::num::TryFromIntError>(&err, wrapped.text()),
    {
        StringError(err.to_string())
    }
}

impl FromSpecImpl<std::io::Error> for StringError {
    open spec fn obeys_from_spec() -> bool {
        false
    }

    open spec fn from_spec(err: std::io::Error) -> Self {
        arbitrary()
    }
}

impl From<std::io::Error> for StringError {
    /// Keeps what the error displays, and nothing else of it.
    fn from(err: std::io::Error) -> (wrapped: Self)
        ensures
            to_string_from_display_ensures::<std::io::Error>(&err, wrapped.text()),
    {
        StringError(err.to_string())
    }
}

/// An I/O error of kind `Other` that carries `err` as its message, made by
/// `std::io::Error::new`. Nothing is claimed of the error value.
#[verifier::external_body]
pub(crate) fn fallback_error(err: &str) -> std::io::Error {
    std::io::Error::new(std::io::ErrorKind::Other, err)
}

/// Succeeds on 42, and on nothing else.
pub fn fallible(arg: i32) -> (result: Result<i32, std::io::Error>)
    ensures
        arg == 42 <==> result is Ok,
        result matches Ok(value) ==> value == 42,
{
    if arg == 42 {
        Ok(42)
    } else {
        Err(fallback_error("oh no!"))
    }
}

} // verus!
