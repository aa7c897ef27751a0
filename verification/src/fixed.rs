//! Fixed-size byte strings: a small helper for text that lives in a plain
//! byte array and is read back as UTF-8.

use vstd::prelude::*;
use vstd::utf8::{decode_utf8, valid_utf8};

verus! {

#[verifier::external_type_specification]
#[verifier::external_body]
pub struct ExUtf8Error(std::str::Utf8Error);

/// Relies on `std::str::from_utf8`: std documents that it returns `Ok` with
/// the string viewing the whole slice exactly when the bytes are valid
/// UTF-8, and `Err` otherwise.
#[verifier::external_body]
fn str_from_utf8(bytes: &[u8]) -> (r: Result<&str, std::str::Utf8Error>)
    ensures
        r is Ok <==> valid_utf8(bytes@),
        r matches Ok(s) ==> s@ == decode_utf8(bytes@),
{
    std::str::from_utf8(bytes)
}

/// A string of exactly `N` bytes.
#[derive(Copy, Clone, Debug)]
pub struct FixedStr<const N: usize>(pub [u8; N]);

impl<const N: usize> FixedStr<N> {
    /// The bytes read back as text; the bytes must be valid UTF-8.
    pub fn as_str(&self) -> (r: &str)
        requires
            valid_utf8(self.0@),
        ensures
            r@ == decode_utf8(self.0@),
    {
        let r = str_from_utf8(self.0.as_slice());
        r.unwrap()
    }

    /// The bytes read back as text, or the decoding error when they are not
    /// valid UTF-8.
    pub fn try_as_str(&self) -> (r: Result<&str, std::str::Utf8Error>)
        ensures
            r is Ok <==> valid_utf8(self.0@),
            r matches Ok(s) ==> s@ == decode_utf8(self.0@),
    {
        match str_from_utf8(self.0.as_slice()) {
            Ok(_) => Ok(self.as_str()),
            Err(e) => Err(e),
        }
    }
}

} // verus!
