//! Borrowed views of text owned by a record graph.

use core::str::Utf8Error;
use std::string::FromUtf8Error;
use vstd::pervasive::arbitrary;
use vstd::prelude::*;
use vstd::std_specs::convert::{FromSpecImpl, TryFromSpecImpl};
use vstd::string::StringSliceAdditionalSpecFns;
use vstd::utf8::{decode_utf8, valid_utf8};

verus! {

/// Makes `core::str::Utf8Error` known as a type of which nothing is known.
#[verifier::external_type_specification]
#[verifier::external_body]
pub struct ExUtf8Error(Utf8Error);

/// Tells what `Clone::clone` gives for a `core::str::Utf8Error`.
///
/// Trusted: the clone is equal to what was cloned. The type is `Copy`.
pub assume_specification[ <Utf8Error as Clone>::clone ](e: &Utf8Error) -> (res: Utf8Error)
    ensures
        res == *e,
;

/// The error that `core::str::from_utf8` reports for a byte string that is
/// not valid UTF-8.
pub uninterp spec fn utf8_error(bytes: Seq<u8>) -> Utf8Error;

/// Calls `core::str::from_utf8`.
///
/// Trusted: the call succeeds exactly on valid UTF-8, the string it returns
/// is made of the given bytes, and on failure the error is the one that
/// [`utf8_error`] names for these bytes.
#[verifier::external_body]
pub(crate) fn str_from_utf8<'a>(bytes: &'a [u8]) -> (res: Result<&'a str, Utf8Error>)
    ensures
        valid_utf8(bytes@) ==> res is Ok && res->Ok_0.spec_bytes() == bytes@,
        !valid_utf8(bytes@) ==> res is Err && res->Err_0 == utf8_error(bytes@),
{
    core::str::from_utf8(bytes)
}

/// Makes `std::string::FromUtf8Error` known as a type of which nothing is
/// known.
#[verifier::external_type_specification]
#[verifier::external_body]
pub struct ExFromUtf8Error(FromUtf8Error);

/// Tells what `Clone::clone` gives for a `std::string::FromUtf8Error`.
///
/// Trusted: the clone is equal to what was cloned: it holds the same bytes
/// and tells of the same fault in them.
pub assume_specification[ <FromUtf8Error as Clone>::clone ](e: &FromUtf8Error) -> (res:
    FromUtf8Error)
    ensures
        res == *e,
;

/// The error that `String::from_utf8` reports for a byte string that is not
/// valid UTF-8.
pub uninterp spec fn from_utf8_error(bytes: Seq<u8>) -> FromUtf8Error;

/// Calls `String::from_utf8`.
///
/// Trusted: the call succeeds exactly on valid UTF-8, the string it returns
/// holds the characters that the bytes encode, and on failure the error is
/// the one that [`from_utf8_error`] names for these bytes.
#[verifier::external_body]
pub(crate) fn string_from_utf8(bytes: Vec<u8>) -> (res: Result<String, FromUtf8Error>)
    ensures
        valid_utf8(bytes@) ==> res is Ok && res->Ok_0@ == decode_utf8(bytes@),
        !valid_utf8(bytes@) ==> res is Err && res->Err_0 == from_utf8_error(bytes@),
{
    String::from_utf8(bytes)
}

/// A string slice made of given bytes holds the characters that they encode.
pub proof fn lemma_bytes_decode(s: &str, bytes: Seq<u8>)
    requires
        s.spec_bytes() == bytes,
    ensures
        valid_utf8(bytes),
        s@ == decode_utf8(bytes),
{
    vstd::utf8::encode_utf8_valid_utf8(s@);
    vstd::utf8::encode_utf8_decode_utf8(s@);
}

/// Says whether two byte strings are the same.
pub fn bytes_eq(a: &[u8], b: &[u8]) -> (same: bool)
    ensures
        same == (a@ == b@),
{
    if a.len() != b.len() {
        return false;
    }
    let mut i: usize = 0;
    while i < a.len()
        invariant
            i <= a.len(),
            a@.len() == b@.len(),
            forall|k: int| 0 <= k < i ==> a@[k] == b@[k],
        decreases a.len() - i,
    {
        if a[i] != b[i] {
            return false;
        }
        i = i + 1;
    }
    assert(a@ =~= b@);
    true
}

/// A borrowed view of a byte string that may or may not be valid text.
#[derive(Debug, Clone, Copy)]
pub struct StringRef<'a> {
    raw: &'a [u8],
}

impl<'a> View for StringRef<'a> {
    type V = Seq<u8>;

    closed spec fn view(&self) -> Seq<u8> {
        self.raw@
    }
}

impl<'a> StringRef<'a> {
    /// Returns the viewed bytes.
    pub fn to_raw(self) -> (raw: &'a [u8])
        ensures
            raw@ == self@,
    {
        self.raw
    }

    /// Creates a view of the given bytes.
    pub fn from_raw(raw: &'a [u8]) -> (s: Self)
        ensures
            s@ == raw@,
    {
        Self { raw }
    }

    /// Creates a view of the given bytes, if there are any.
    pub fn from_option_raw(raw: Option<&'a [u8]>) -> (s: Option<Self>)
        ensures
            raw is None ==> s is None,
            raw is Some ==> s is Some && s->Some_0@ == raw->Some_0@,
    {
        match raw {
            Some(raw) => Some(Self::from_raw(raw)),
            None => None,
        }
    }

    /// Converts the view to a string slice.
    ///
    /// Fails if the bytes are not valid UTF-8.
    pub fn as_str(&self) -> (res: Result<&'a str, Utf8Error>)
        ensures
            valid_utf8(self@) ==> res is Ok && res->Ok_0.spec_bytes() == self@,
            !valid_utf8(self@) ==> res is Err && res->Err_0 == utf8_error(self@),
    {
        <&str>::try_from(*self)
    }
}

impl<'a> From<&'a str> for StringRef<'a> {
    fn from(value: &'a str) -> (s: Self)
        ensures
            s@ == value.spec_bytes(),
    {
        StringRef::from_raw(value.as_bytes())
    }
}

/// No value of the target type can be written down in ghost code:
/// what the conversion gives is stated on `from` itself.
impl<'a> FromSpecImpl<&'a str> for StringRef<'a> {
    open spec fn obeys_from_spec() -> bool {
        false
    }

    open spec fn from_spec(value: &'a str) -> Self {
        arbitrary()
    }
}

impl<'a> TryFrom<StringRef<'a>> for &'a str {
    type Error = Utf8Error;

    fn try_from(value: StringRef<'a>) -> (res: Result<Self, Utf8Error>)
        ensures
            valid_utf8(value@) ==> res is Ok && res->Ok_0.spec_bytes() == value@,
            !valid_utf8(value@) ==> res is Err && res->Err_0 == utf8_error(value@),
    {
        str_from_utf8(value.to_raw())
    }
}

/// No value of the target type can be written down in ghost code:
/// what the conversion gives is stated on `try_from` itself.
impl<'a> TryFromSpecImpl<StringRef<'a>> for &'a str {
    open spec fn obeys_try_from_spec() -> bool {
        false
    }

    open spec fn try_from_spec(value: StringRef<'a>) -> Result<Self, Utf8Error> {
        arbitrary()
    }
}

impl<'a> From<StringRef<'a>> for &'a [u8] {
    /// This conversion never fails.
    fn from(value: StringRef<'a>) -> (bytes: Self)
        ensures
            bytes@ == value@,
    {
        value.to_raw()
    }
}

/// No value of the target type can be written down in ghost code:
/// what the conversion gives is stated on `from` itself.
impl<'a> FromSpecImpl<StringRef<'a>> for &'a [u8] {
    open spec fn obeys_from_spec() -> bool {
        false
    }

    open spec fn from_spec(value: StringRef<'a>) -> Self {
        arbitrary()
    }
}

} // verus!
