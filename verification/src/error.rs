//! Error types of this crate.
//!
//! All kinds of failure are listed in [`TableGenError`]. Most functions
//! return a [`SourceError<TableGenError>`] (alias [`Error`]), which pairs the
//! failure with a [`SourceLocation`]: a position in a TableGen source file.
//!
//! The diagnostic printer of the TableGen compiler can describe such a
//! position (file name, line, column and the source line itself). What it
//! wrote is handed to [`SourceError::add_source_info`] as a [`SourceInfo`].
//! If the printer did not recognise the position, or wrote something that is
//! not text, the error keeps its plain message, followed by a note that says
//! why no source information could be attached.

use crate::string_ref::{
    from_utf8_error, lemma_bytes_decode, str_from_utf8, utf8_error, StringRef,
};
use core::str::Utf8Error;
use std::string::FromUtf8Error;
use vstd::prelude::*;
use vstd::slice::slice_to_vec;
use vstd::utf8::{decode_utf8, valid_utf8};

verus! {

/// The position of the first NUL byte in `bytes`, if there is one.
pub open spec fn first_nul(bytes: Seq<u8>) -> Option<int>
    decreases bytes.len(),
{
    if bytes.len() == 0 {
        None
    } else {
        match first_nul(bytes.drop_last()) {
            Some(i) => Some(i),
            None => if bytes.last() == 0 {
                Some(bytes.len() - 1)
            } else {
                None
            },
        }
    }
}

/// The position that [`first_nul`] finds holds a NUL byte, and no position
/// before it does.
pub proof fn lemma_first_nul(bytes: Seq<u8>)
    ensures
        first_nul(bytes) matches Some(i) ==> 0 <= i < bytes.len() && bytes[i] == 0 && forall|j: int|
            0 <= j < i ==> bytes[j] != 0,
        first_nul(bytes) is None ==> forall|j: int| 0 <= j < bytes.len() ==> bytes[j] != 0,
    decreases bytes.len(),
{
    if bytes.len() > 0 {
        let rest = bytes.drop_last();
        lemma_first_nul(rest);
        assert forall|j: int| 0 <= j < rest.len() implies rest[j] == #[trigger] bytes[j] by {}
    }
}

/// Finds the first NUL byte in `bytes`.
pub fn find_nul(bytes: &[u8]) -> (position: Option<usize>)
    ensures
        position is Some <==> first_nul(bytes@) is Some,
        position matches Some(i) ==> first_nul(bytes@) == Some(i as int),
{
    let mut i: usize = 0;
    while i < bytes.len()
        invariant
            i <= bytes.len(),
            first_nul(bytes@.take(i as int)) is None,
        decreases bytes.len() - i,
    {
        proof {
            assert(bytes@.take(i + 1).drop_last() == bytes@.take(i as int));
        }
        if bytes[i] == 0 {
            proof {
                lemma_first_nul_prefix(bytes@, i + 1);
            }
            return Some(i);
        }
        i = i + 1;
    }
    proof {
        assert(bytes@.take(i as int) == bytes@);
    }
    None
}

/// A NUL byte that is the first of a prefix is the first of the whole.
proof fn lemma_first_nul_prefix(bytes: Seq<u8>, n: int)
    requires
        0 <= n <= bytes.len(),
        first_nul(bytes.take(n)) is Some,
    ensures
        first_nul(bytes) == first_nul(bytes.take(n)),
    decreases bytes.len() - n,
{
    if n < bytes.len() {
        assert(bytes.take(n + 1).drop_last() == bytes.take(n));
        lemma_first_nul_prefix(bytes, n + 1);
    } else {
        assert(bytes.take(n) == bytes);
    }
}

/// An error that tells of a NUL byte in text that has to be handed on
/// NUL-terminated, and so may hold none.
#[derive(Debug, PartialEq, Eq)]
pub struct NulError {
    position: usize,
    bytes: Vec<u8>,
}

impl NulError {
    /// The position of the first NUL byte.
    pub closed spec fn spec_nul_position(&self) -> usize {
        self.position
    }

    /// The bytes in which the NUL byte was found.
    pub closed spec fn spec_bytes(&self) -> Seq<u8> {
        self.bytes@
    }

    #[verifier::type_invariant]
    spec fn inv(&self) -> bool {
        first_nul(self.bytes@) == Some(self.position as int)
    }

    /// Hands `bytes` back if they hold no NUL byte. Otherwise the error
    /// keeps them and tells where the first NUL byte is.
    pub fn check(bytes: Vec<u8>) -> (res: Result<Vec<u8>, NulError>)
        ensures
            first_nul(bytes@) is None ==> res is Ok && res->Ok_0@ == bytes@,
            first_nul(bytes@) matches Some(position) ==> res is Err
                && res->Err_0.spec_nul_position() == position && res->Err_0.spec_bytes()
                == bytes@,
    {
        match find_nul(bytes.as_slice()) {
            Some(position) => Err(NulError { position, bytes }),
            None => Ok(bytes),
        }
    }

    /// Returns the position of the first NUL byte.
    pub fn nul_position(&self) -> (position: usize)
        ensures
            position == self.spec_nul_position(),
            first_nul(self.spec_bytes()) == Some(position as int),
    {
        proof {
            use_type_invariant(self);
        }
        self.position
    }

    /// Returns the bytes in which the NUL byte was found.
    pub fn into_vec(self) -> (bytes: Vec<u8>)
        ensures
            bytes@ == self.spec_bytes(),
    {
        self.bytes
    }
}

impl Clone for NulError {
    fn clone(&self) -> (copy: Self)
        ensures
            copy.spec_nul_position() == self.spec_nul_position(),
            copy.spec_bytes() == self.spec_bytes(),
    {
        proof {
            use_type_invariant(self);
        }
        NulError { position: self.position, bytes: slice_to_vec(self.bytes.as_slice()) }
    }
}

/// An error that can say in one line of text what went wrong.
pub trait Message {
    /// The text of the message.
    spec fn message_text(&self) -> Seq<char>;

    /// Returns the message.
    fn message(&self) -> (text: String)
        ensures
            text@ == self.message_text(),
    ;
}

/// Text that is not valid UTF-8, as the cause of a failed conversion.
#[derive(Debug, Clone, PartialEq, Eq)]
pub enum EncodingError {
    /// The text was asked for as a string slice.
    Str(Utf8Error),
    /// The text was asked for as a [`String`].
    String(FromUtf8Error),
}

impl Message for EncodingError {
    open spec fn message_text(&self) -> Seq<char> {
        "invalid UTF-8 string"@
    }

    fn message(&self) -> (text: String) {
        String::from_str("invalid UTF-8 string")
    }
}

/// Enum of TableGen errors.
#[non_exhaustive]
#[derive(Debug, Clone, PartialEq, Eq)]
pub enum TableGenError {
    /// The compiler did not take a piece of source code, a file or a search
    /// path.
    InvalidSource,
    /// Source code holds a NUL byte.
    InvalidSourceString(NulError),
    /// Text that was asked for as a string slice is not valid UTF-8.
    InvalidUtf8Str(Utf8Error),
    /// Text that was asked for as a [`String`] is not valid UTF-8.
    InvalidUtf8String(FromUtf8Error),
    /// The compiler found the source code to be wrong.
    Parse,
    /// A record has no field of the given name.
    MissingValue(String),
    /// There is no definition of the given name.
    MissingDef(String),
    /// There is no class of the given name.
    MissingClass(String),
    /// A value of the type `from` could not be had as the type `to`.
    ///
    /// Mostly the value is of another type than the one asked for, and
    /// there is no `cause`. If the value is of the right type and could not
    /// be converted all the same, `cause` tells why.
    InitConversion { from: &'static str, to: &'static str, cause: Option<EncodingError> },
    /// The diagnostic printer did not recognise a source location.
    InvalidSourceLocation,
}

impl Message for TableGenError {
    open spec fn message_text(&self) -> Seq<char> {
        match self {
            TableGenError::InvalidSource => "invalid TableGen source"@,
            TableGenError::InvalidSourceString(_) => "invalid TableGen source"@,
            TableGenError::InvalidUtf8Str(_) => "invalid UTF-8 string"@,
            TableGenError::InvalidUtf8String(_) => "invalid UTF-8 string"@,
            TableGenError::Parse => "failed to parse TableGen source"@,
            TableGenError::MissingValue(name) => "expected field "@ + name@ + " in record"@,
            TableGenError::MissingDef(name) => "expected def "@ + name@,
            TableGenError::MissingClass(name) => "expected class "@ + name@,
            TableGenError::InitConversion { from, to, cause } => "invalid conversion from "@
                + from@ + " to "@ + to@,
            TableGenError::InvalidSourceLocation => "invalid source location"@,
        }
    }

    fn message(&self) -> (text: String) {
        match self {
            TableGenError::InvalidSource => String::from_str("invalid TableGen source"),
            TableGenError::InvalidSourceString(_) => String::from_str("invalid TableGen source"),
            TableGenError::InvalidUtf8Str(_) => String::from_str("invalid UTF-8 string"),
            TableGenError::InvalidUtf8String(_) => String::from_str("invalid UTF-8 string"),
            TableGenError::Parse => String::from_str("failed to parse TableGen source"),
            TableGenError::MissingValue(name) => {
                let mut text = String::from_str("expected field ");
                text.append(name.as_str());
                text.append(" in record");
                text
            },
            TableGenError::MissingDef(name) => {
                let mut text = String::from_str("expected def ");
                text.append(name.as_str());
                text
            },
            TableGenError::MissingClass(name) => {
                let mut text = String::from_str("expected class ");
                text.append(name.as_str());
                text
            },
            TableGenError::InitConversion { from, to, cause } => {
                let mut text = String::from_str("invalid conversion from ");
                text.append(from);
                text.append(" to ");
                text.append(to);
                text
            },
            TableGenError::InvalidSourceLocation => String::from_str("invalid source location"),
        }
    }
}

/// A location in a TableGen source file.
///
/// A location is either undetermined or a position handed out by the
/// compiler that read the source. Only that compiler can turn the position
/// back into a file name, a line and a column.
#[derive(Debug, Clone, Copy, PartialEq, Eq)]
pub struct SourceLocation {
    /// The position, if the location is determined.
    pub raw: Option<usize>,
}

impl SourceLocation {
    /// Creates a location from a position of the compiler.
    pub fn from_raw(raw: usize) -> (location: Self)
        ensures
            location == (SourceLocation { raw: Some(raw) }),
    {
        Self { raw: Some(raw) }
    }

    /// Returns a [`SourceLocation`] for an undetermined location in the
    /// TableGen source file.
    pub fn none() -> (location: Self)
        ensures
            location == (SourceLocation { raw: None }),
    {
        Self { raw: None }
    }
}

/// Anything that knows where in the source it came from.
pub trait SourceLoc {
    /// The location that [`SourceLoc::source_location`] returns.
    spec fn spec_source_location(&self) -> SourceLocation;

    /// Returns the source location.
    fn source_location(self) -> (location: SourceLocation)
        ensures
            location == self.spec_source_location(),
    ;
}

impl SourceLoc for SourceLocation {
    open spec fn spec_source_location(&self) -> SourceLocation {
        *self
    }

    fn source_location(self) -> (location: SourceLocation) {
        self
    }
}

/// What the diagnostic printer of the compiler wrote when it was asked to
/// report an error at some location.
///
/// The printer writes its report piece by piece and then says whether it
/// recognised the location.
#[derive(Debug, Clone, PartialEq, Eq)]
pub struct SourceInfo {
    /// The pieces of the report, in the order in which they were written.
    pub pieces: Vec<Vec<u8>>,
    /// Whether the printer recognised the location.
    pub printed: bool,
}

/// The text that a sequence of written pieces adds up to, or the error of
/// the first piece that is not valid UTF-8.
pub open spec fn joined_text(pieces: Seq<Vec<u8>>) -> Result<Seq<char>, TableGenError>
    decreases pieces.len(),
{
    if pieces.len() == 0 {
        Ok(Seq::empty())
    } else {
        match joined_text(pieces.drop_last()) {
            Err(e) => Err(e),
            Ok(text) => if valid_utf8(pieces.last()@) {
                Ok(text + decode_utf8(pieces.last()@))
            } else {
                Err(TableGenError::InvalidUtf8Str(utf8_error(pieces.last()@)))
            },
        }
    }
}

/// The report of the printer as a whole: its text, or the reason why there
/// is none.
pub open spec fn printed_report(info: SourceInfo) -> Result<Seq<char>, TableGenError> {
    if info.printed {
        joined_text(info.pieces@)
    } else {
        Err(TableGenError::InvalidSourceLocation)
    }
}

/// The message of an error once source information has been added to it:
/// the report of the printer, or else the plain message followed by a note.
pub open spec fn located_message(info: SourceInfo, message: Seq<char>) -> Seq<char> {
    match printed_report(info) {
        Ok(text) => text,
        Err(e) => message + "\nfailed to print source information: "@ + e.message_text(),
    }
}

/// Joins the pieces that the printer wrote into one string.
///
/// Stops at the first piece that is not valid UTF-8 and reports it.
pub fn join_pieces(pieces: &Vec<Vec<u8>>) -> (res: Result<String, TableGenError>)
    ensures
        joined_text(pieces@) is Ok ==> res is Ok && res->Ok_0@ == joined_text(pieces@)->Ok_0,
        joined_text(pieces@) is Err ==> res is Err && res->Err_0 == joined_text(pieces@)->Err_0,
{
    let mut text = String::new();
    let mut i: usize = 0;
    while i < pieces.len()
        invariant
            i <= pieces.len(),
            joined_text(pieces@.take(i as int)) == Ok::<Seq<char>, TableGenError>(text@),
        decreases pieces.len() - i,
    {
        proof {
            assert(pieces@.take(i + 1).drop_last() == pieces@.take(i as int));
            assert(pieces@.take(i + 1).last() == pieces@[i as int]);
        }
        match StringRef::from_raw(pieces[i].as_slice()).as_str() {
            Ok(piece) => {
                proof {
                    lemma_bytes_decode(piece, pieces@[i as int]@);
                }
                text.append(piece);
            },
            Err(e) => {
                proof {
                    lemma_joined_text_error(pieces@, i as int);
                }
                return Err(TableGenError::InvalidUtf8Str(e));
            },
        }
        i = i + 1;
    }
    proof {
        assert(pieces@.take(i as int) == pieces@);
    }
    Ok(text)
}

/// Once a prefix of the pieces fails to join, so do all the pieces, and with
/// the same error.
proof fn lemma_joined_text_error(pieces: Seq<Vec<u8>>, i: int)
    requires
        0 <= i < pieces.len(),
        joined_text(pieces.take(i + 1)) is Err,
    ensures
        joined_text(pieces) == joined_text(pieces.take(i + 1)),
    decreases pieces.len() - i,
{
    if i + 1 < pieces.len() {
        assert(pieces.take(i + 2).drop_last() == pieces.take(i + 1));
        lemma_joined_text_error(pieces, i + 1);
    } else {
        assert(pieces.take(i + 1) == pieces);
    }
}

/// A wrapper around error types which adds a [`SourceLocation`].
///
/// This error describes what went wrong in a TableGen source file at a
/// certain location. By calling [`SourceError::add_source_info`], the report
/// of the diagnostic printer for that location becomes the message of this
/// error.
#[derive(Debug, Clone, PartialEq, Eq)]
pub struct SourceError<E> {
    location: SourceLocation,
    message: Option<String>,
    error: E,
}

impl<E> SourceError<E> {
    /// The location of the error.
    pub closed spec fn spec_location(&self) -> SourceLocation {
        self.location
    }

    /// The error that was given a location.
    pub closed spec fn spec_error(&self) -> E {
        self.error
    }

    /// The report of the diagnostic printer, if one was added.
    pub closed spec fn spec_message(&self) -> Option<Seq<char>> {
        match self.message {
            Some(message) => Some(message@),
            None => None,
        }
    }

    /// The error that [`SourceError::new`] creates.
    pub closed spec fn spec_new(location: SourceLocation, error: E) -> Self {
        SourceError { location, message: None, error }
    }

    /// This error at another location.
    pub closed spec fn spec_set_location(self, location: SourceLocation) -> Self {
        SourceError { location, message: self.message, error: self.error }
    }

    /// Says what [`SourceError::spec_set_location`] holds.
    pub broadcast proof fn lemma_spec_set_location(self, location: SourceLocation)
        ensures
            (#[trigger] self.spec_set_location(location)).spec_location() == location,
            self.spec_set_location(location).spec_error() == self.spec_error(),
            self.spec_set_location(location).spec_message() == self.spec_message(),
            self.spec_message() is None ==> self.spec_set_location(location) == Self::spec_new(
                location,
                self.spec_error(),
            ),
    {
    }

    /// Says what [`SourceError::spec_new`] holds.
    pub broadcast proof fn lemma_spec_new(location: SourceLocation, error: E)
        ensures
            (#[trigger] Self::spec_new(location, error)).spec_location() == location,
            Self::spec_new(location, error).spec_error() == error,
            Self::spec_new(location, error).spec_message() is None,
    {
    }

    /// Creates a new [`SourceError`].
    pub fn new(location: SourceLocation, error: E) -> (e: Self)
        ensures
            e == Self::spec_new(location, error),
    {
        Self { location, error, message: None }
    }

    /// Returns the location of the error.
    pub fn location(&self) -> (location: &SourceLocation)
        ensures
            *location == self.spec_location(),
    {
        &self.location
    }

    /// Returns the error that was given a location.
    pub fn error(&self) -> (error: &E)
        ensures
            *error == self.spec_error(),
    {
        &self.error
    }

    /// Replaces the inner error with the given error.
    ///
    /// Any source information that was previously attached with
    /// [`SourceError::add_source_info`] will be removed.
    pub fn set_error<F>(self, error: F) -> (e: SourceError<F>)
        ensures
            e == SourceError::<F>::spec_new(self.spec_location(), error),
    {
        SourceError { error, message: None, location: self.location }
    }

    /// Replaces the location.
    ///
    /// Source information that was attached before stays as it is.
    pub fn set_location<L: SourceLoc>(self, location: L) -> (e: Self)
        ensures
            e == self.spec_set_location(location.spec_source_location()),
    {
        let mut e = self;
        e.location = location.source_location();
        e
    }
}

impl<E: Message> SourceError<E> {
    /// Adds information about the TableGen source file at the location of
    /// this error.
    ///
    /// `info` is what the diagnostic printer wrote when it was asked to
    /// report the message of the inner error at that location. The new
    /// message is the report of the printer. If there is none, the plain
    /// message stays, followed by a note; this never fails.
    pub fn add_source_info(self, info: SourceInfo) -> (e: Self)
        ensures
            e.spec_location() == self.spec_location(),
            e.spec_error() == self.spec_error(),
            e.spec_message() == Some(located_message(info, self.spec_error().message_text())),
    {
        let mut e = self;
        let plain = e.error.message();
        e.message = Some(Self::create_message(&info, plain.as_str()));
        e
    }

    /// Turns the report of the diagnostic printer into the message of an
    /// error whose plain message is `message`.
    pub fn create_message(info: &SourceInfo, message: &str) -> (text: String)
        ensures
            text@ == located_message(*info, message@),
    {
        let result = if info.printed {
            join_pieces(&info.pieces)
        } else {
            Err(TableGenError::InvalidSourceLocation)
        };
        match result {
            Ok(text) => text,
            Err(e) => {
                let mut text = String::from_str(message);
                text.append("\nfailed to print source information: ");
                let reason = e.message();
                text.append(reason.as_str());
                text
            },
        }
    }
}

impl<E: Message> Message for SourceError<E> {
    open spec fn message_text(&self) -> Seq<char> {
        match self.spec_message() {
            Some(message) => message,
            None => self.spec_error().message_text(),
        }
    }

    /// Returns the report of the diagnostic printer if one was added, and
    /// the message of the inner error otherwise.
    fn message(&self) -> (text: String) {
        match &self.message {
            Some(message) => message.clone(),
            None => self.error.message(),
        }
    }
}

/// Gives an error a location.
pub trait WithLocation: Message + Sized {
    /// Creates a [`SourceError`] wrapper.
    fn with_location<L: SourceLoc>(self, location: L) -> (e: SourceError<Self>)
        ensures
            e == SourceError::<Self>::spec_new(location.spec_source_location(), self),
    {
        SourceError::new(location.source_location(), self)
    }
}

impl<E: Message> WithLocation for E {
}

/// Main error type.
pub type Error = SourceError<TableGenError>;

impl From<TableGenError> for SourceError<TableGenError> {
    fn from(value: TableGenError) -> (e: Self) {
        value.with_location(SourceLocation::none())
    }
}

impl vstd::std_specs::convert::FromSpecImpl<TableGenError> for SourceError<TableGenError> {
    open spec fn obeys_from_spec() -> bool {
        true
    }

    open spec fn from_spec(value: TableGenError) -> Self {
        Self::spec_new(SourceLocation { raw: None }, value)
    }
}

} // verus!
