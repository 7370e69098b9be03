//! A hexadecimal dump of what a device sent, and a default for empty names.

use vstd::prelude::*;
use vstd::string::StrSliceExecFns;

verus! {

/// `faster_hex::Error`, the error of the encoder: it is told apart from
/// success and nothing else.
#[verifier::external_type_specification]
#[verifier::external_body]
pub struct ExHexError(faster_hex::Error);

/// The lower-case hexadecimal digit of a value below sixteen, as a byte.
pub open spec fn hex_digit(value: int) -> u8 {
    if value < 10 {
        (48 + value) as u8
    } else {
        (87 + value) as u8
    }
}

/// The hexadecimal digits of `bytes`: two for each byte, the high half first.
pub open spec fn hex_digits(bytes: Seq<u8>) -> Seq<u8> {
    Seq::new(
        2 * bytes.len(),
        |i: int|
            if i % 2 == 0 {
                hex_digit(bytes[i / 2] as int / 16)
            } else {
                hex_digit(bytes[i / 2] as int % 16)
            },
    )
}

/// The characters that stand for `bytes`, byte by byte.
pub open spec fn as_chars(bytes: Seq<u8>) -> Seq<char> {
    Seq::new(bytes.len(), |i: int| bytes[i] as char)
}

/// `faster_hex::hex_encode`: writes the lower-case hexadecimal digits of
/// `src` to the front of `dst` and leaves the rest of `dst` alone. Where
/// `dst` has no room for two digits for each byte, it fails and leaves all of
/// `dst` as it was.
#[verifier::external_body]
fn hex_encode(src: &[u8], dst: &mut Vec<u8>) -> (result: Result<(), faster_hex::Error>)
    ensures
        final(dst)@.len() == old(dst)@.len(),
        result is Ok <==> 2 * src@.len() <= old(dst)@.len(),
        result is Ok ==> final(dst)@ == hex_digits(src@) + old(dst)@.skip(2 * src@.len() as int),
        result is Err ==> final(dst)@ == old(dst)@,
{
    match faster_hex::hex_encode(src, dst.as_mut_slice()) {
        Ok(_) => Ok(()),
        Err(err) => Err(err),
    }
}

/// `str::from_utf8` of std on bytes that are all ASCII, where it cannot fail:
/// the string has one character for each byte.
#[verifier::external_body]
fn ascii_to_string(bytes: &[u8]) -> (text: String)
    requires
        forall|i: int| 0 <= i < bytes@.len() ==> #[trigger] bytes@[i] < 128,
    ensures
        text@ == as_chars(bytes@),
{
    match std::str::from_utf8(bytes) {
        Ok(text) => String::from(text),
        Err(_) => String::new(),
    }
}

/// Why a dump could not be made.
#[derive(Clone, Copy, Debug, PartialEq, Eq, Structural)]
pub enum DumpError {
    /// The data is longer than the dump's buffer can take.
    TooLong,
}

/// The most bytes that one dump takes.
pub const DUMP_MAX: usize = 256;

/// The hexadecimal dump of `data`, as text: two lower-case digits for each
/// byte. Data of more than [`DUMP_MAX`] bytes is refused.
pub fn hex_dump(data: &[u8]) -> (result: Result<String, DumpError>)
    ensures
        result is Ok <==> data@.len() <= DUMP_MAX,
        result matches Ok(text) ==> text@ == as_chars(hex_digits(data@)),
{
    let mut hbuf: Vec<u8> = Vec::new();
    let mut i: usize = 0;
    while i < 2 * DUMP_MAX
        invariant
            i <= 2 * DUMP_MAX,
            hbuf@.len() == i,
        decreases 2 * DUMP_MAX - i,
    {
        hbuf.push(0);
        i = i + 1;
    }
    match hex_encode(data, &mut hbuf) {
        Err(_) => Err(DumpError::TooLong),
        Ok(()) => {
            let len = data.len();
            hbuf.truncate(2 * len);
            proof {
                assert(hbuf@ =~= hex_digits(data@));
                assert forall|k: int| 0 <= k < hbuf@.len() implies #[trigger] hbuf@[k] < 128 by {
                    let b = data@[k / 2] as int;
                    assert(0 <= b / 16 < 16);
                    assert(0 <= b % 16 < 16);
                }
            }
            Ok(ascii_to_string(hbuf.as_slice()))
        },
    }
}

/// A default for what may be empty.
pub trait ReplaceEmpty: Sized {
    /// Whether the value is empty.
    spec fn empty(&self) -> bool;

    /// The value itself, or `default` where the value is empty.
    fn replace_empty(self, default: Self) -> (kept: Self)
        ensures
            kept == if self.empty() {
                default
            } else {
                self
            },
    ;
}

impl<'a> ReplaceEmpty for &'a str {
    open spec fn empty(&self) -> bool {
        self@.len() == 0
    }

    fn replace_empty(self, default: Self) -> (kept: Self) {
        if self.unicode_len() == 0 {
            default
        } else {
            self
        }
    }
}

} // verus!
