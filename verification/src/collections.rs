//! A lookup that may refuse a key, for trying out fallible inserts into maps.

use vstd::prelude::*;
use crate::text::str_equal;

verus! {

/// The value kept under `key`: 42 under `"foo"`, and no other key is allowed.
pub fn fallible(key: &str) -> (result: Result<i32, &'static str>)
    ensures
        key@ == "foo"@ ==> result == Ok::<i32, &'static str>(42),
        key@ != "foo"@ ==> result is Err && result->Err_0@ == "forbidden key"@,
{
    if str_equal(key, "foo") {
        Ok(42)
    } else {
        Err("forbidden key")
    }
}

} // verus!
