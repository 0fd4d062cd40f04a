//! References to the typed values of TableGen.
//!
//! A [`TypedInit`] tells of which type a value is and holds a reference to
//! it. The references can be converted to Rust types using [`From`] and
//! [`TryFrom`]. Most conversions are cheap, except for the conversion to
//! [`String`] and to [`Vec`].

use crate::error::{EncodingError, Error, SourceError, SourceLocation, TableGenError};
use crate::raw::{init_valid, RawDagArg, RawInit};
use crate::record::Record;
use crate::record_keeper::RecordKeeper;
use crate::string_ref::{
    from_utf8_error, lemma_bytes_decode, string_from_utf8, utf8_error, StringRef,
};
use core::str::Utf8Error;
use std::string::FromUtf8Error;
use vstd::pervasive::{arbitrary, unreached};
use vstd::prelude::*;
use vstd::slice::slice_to_vec;
use vstd::std_specs::convert::{FromSpecImpl, TryFromSpecImpl};
use vstd::string::StringSliceAdditionalSpecFns;
use vstd::utf8::{decode_utf8, valid_utf8};

verus! {

/// A reference to a single bit.
///
/// The reference cannot outlive the [`RecordKeeper`] that owns the value.
#[derive(Clone, Copy)]
pub struct BitInit<'a> {
    raw: usize,
    keeper: &'a RecordKeeper,
}

impl<'a> BitInit<'a> {
    /// The number of the value in the graph.
    pub closed spec fn raw(&self) -> usize {
        self.raw
    }

    /// The record keeper that owns the value.
    pub closed spec fn keeper(&self) -> &'a RecordKeeper {
        self.keeper
    }

    /// The value as the graph holds it.
    pub open spec fn node(&self) -> RawInit {
        self.keeper()@.inits()[self.raw() as int]
    }

    /// The graph holds a value of this kind under the number of the
    /// reference.
    #[verifier::type_invariant]
    pub open spec fn wf(&self) -> bool {
        &&& self.raw() < self.keeper()@.inits().len()
        &&& (self.node() is Bit)
    }

    /// The reference that [`BitInit::from_raw`] creates.
    pub closed spec fn spec_from_raw(keeper: &'a RecordKeeper, raw: usize) -> Self {
        BitInit { raw, keeper }
    }

    /// Says what [`BitInit::spec_from_raw`] holds.
    pub broadcast proof fn lemma_spec_from_raw(keeper: &'a RecordKeeper, raw: usize)
        ensures
            (#[trigger] Self::spec_from_raw(keeper, raw)).raw() == raw,
            Self::spec_from_raw(keeper, raw).keeper() == keeper,
    {
    }

    /// Creates a reference to the value with the given number.
    pub fn from_raw(keeper: &'a RecordKeeper, raw: usize) -> (init: Self)
        requires
            raw < keeper@.inits().len(),
            keeper@.inits()[raw as int] is Bit,
        ensures
            init == Self::spec_from_raw(keeper, raw),
            init.raw() == raw,
            init.keeper() == keeper,
    {
        Self { raw, keeper }
    }

    /// Returns the number of the value in the graph.
    pub fn to_raw(self) -> (raw: usize)
        ensures
            raw == self.raw(),
    {
        self.raw
    }

    /// Returns the value as the graph holds it.
    fn get_node(self) -> (node: &'a RawInit)
        ensures
            *node == self.node(),
            self.wf(),
            self.keeper()@.wf(),
    {
        proof {
            use_type_invariant(&self);
        }
        self.keeper.raw().init(self.raw)
    }
}

/// A reference to a sequence of bits.
///
/// The reference cannot outlive the [`RecordKeeper`] that owns the value.
#[derive(Clone, Copy)]
pub struct BitsInit<'a> {
    raw: usize,
    keeper: &'a RecordKeeper,
}

impl<'a> BitsInit<'a> {
    /// The number of the value in the graph.
    pub closed spec fn raw(&self) -> usize {
        self.raw
    }

    /// The record keeper that owns the value.
    pub closed spec fn keeper(&self) -> &'a RecordKeeper {
        self.keeper
    }

    /// The value as the graph holds it.
    pub open spec fn node(&self) -> RawInit {
        self.keeper()@.inits()[self.raw() as int]
    }

    /// The graph holds a value of this kind under the number of the
    /// reference.
    #[verifier::type_invariant]
    pub open spec fn wf(&self) -> bool {
        &&& self.raw() < self.keeper()@.inits().len()
        &&& (self.node() is Bits)
    }

    /// The reference that [`BitsInit::from_raw`] creates.
    pub closed spec fn spec_from_raw(keeper: &'a RecordKeeper, raw: usize) -> Self {
        BitsInit { raw, keeper }
    }

    /// Says what [`BitsInit::spec_from_raw`] holds.
    pub broadcast proof fn lemma_spec_from_raw(keeper: &'a RecordKeeper, raw: usize)
        ensures
            (#[trigger] Self::spec_from_raw(keeper, raw)).raw() == raw,
            Self::spec_from_raw(keeper, raw).keeper() == keeper,
    {
    }

    /// Creates a reference to the value with the given number.
    pub fn from_raw(keeper: &'a RecordKeeper, raw: usize) -> (init: Self)
        requires
            raw < keeper@.inits().len(),
            keeper@.inits()[raw as int] is Bits,
        ensures
            init == Self::spec_from_raw(keeper, raw),
            init.raw() == raw,
            init.keeper() == keeper,
    {
        Self { raw, keeper }
    }

    /// Returns the number of the value in the graph.
    pub fn to_raw(self) -> (raw: usize)
        ensures
            raw == self.raw(),
    {
        self.raw
    }

    /// Returns the value as the graph holds it.
    fn get_node(self) -> (node: &'a RawInit)
        ensures
            *node == self.node(),
            self.wf(),
            self.keeper()@.wf(),
    {
        proof {
            use_type_invariant(&self);
        }
        self.keeper.raw().init(self.raw)
    }
}

/// A reference to an integer.
///
/// The reference cannot outlive the [`RecordKeeper`] that owns the value.
#[derive(Clone, Copy)]
pub struct IntInit<'a> {
    raw: usize,
    keeper: &'a RecordKeeper,
}

impl<'a> IntInit<'a> {
    /// The number of the value in the graph.
    pub closed spec fn raw(&self) -> usize {
        self.raw
    }

    /// The record keeper that owns the value.
    pub closed spec fn keeper(&self) -> &'a RecordKeeper {
        self.keeper
    }

    /// The value as the graph holds it.
    pub open spec fn node(&self) -> RawInit {
        self.keeper()@.inits()[self.raw() as int]
    }

    /// The graph holds a value of this kind under the number of the
    /// reference.
    #[verifier::type_invariant]
    pub open spec fn wf(&self) -> bool {
        &&& self.raw() < self.keeper()@.inits().len()
        &&& (self.node() is Int)
    }

    /// The reference that [`IntInit::from_raw`] creates.
    pub closed spec fn spec_from_raw(keeper: &'a RecordKeeper, raw: usize) -> Self {
        IntInit { raw, keeper }
    }

    /// Says what [`IntInit::spec_from_raw`] holds.
    pub broadcast proof fn lemma_spec_from_raw(keeper: &'a RecordKeeper, raw: usize)
        ensures
            (#[trigger] Self::spec_from_raw(keeper, raw)).raw() == raw,
            Self::spec_from_raw(keeper, raw).keeper() == keeper,
    {
    }

    /// Creates a reference to the value with the given number.
    pub fn from_raw(keeper: &'a RecordKeeper, raw: usize) -> (init: Self)
        requires
            raw < keeper@.inits().len(),
            keeper@.inits()[raw as int] is Int,
        ensures
            init == Self::spec_from_raw(keeper, raw),
            init.raw() == raw,
            init.keeper() == keeper,
    {
        Self { raw, keeper }
    }

    /// Returns the number of the value in the graph.
    pub fn to_raw(self) -> (raw: usize)
        ensures
            raw == self.raw(),
    {
        self.raw
    }

    /// Returns the value as the graph holds it.
    fn get_node(self) -> (node: &'a RawInit)
        ensures
            *node == self.node(),
            self.wf(),
            self.keeper()@.wf(),
    {
        proof {
            use_type_invariant(&self);
        }
        self.keeper.raw().init(self.raw)
    }
}

/// A reference to a string or to a piece of code.
///
/// The reference cannot outlive the [`RecordKeeper`] that owns the value.
#[derive(Clone, Copy)]
pub struct StringInit<'a> {
    raw: usize,
    keeper: &'a RecordKeeper,
}

impl<'a> StringInit<'a> {
    /// The number of the value in the graph.
    pub closed spec fn raw(&self) -> usize {
        self.raw
    }

    /// The record keeper that owns the value.
    pub closed spec fn keeper(&self) -> &'a RecordKeeper {
        self.keeper
    }

    /// The value as the graph holds it.
    pub open spec fn node(&self) -> RawInit {
        self.keeper()@.inits()[self.raw() as int]
    }

    /// The graph holds a value of this kind under the number of the
    /// reference.
    #[verifier::type_invariant]
    pub open spec fn wf(&self) -> bool {
        &&& self.raw() < self.keeper()@.inits().len()
        &&& (self.node() is String || self.node() is Code)
    }

    /// The reference that [`StringInit::from_raw`] creates.
    pub closed spec fn spec_from_raw(keeper: &'a RecordKeeper, raw: usize) -> Self {
        StringInit { raw, keeper }
    }

    /// Says what [`StringInit::spec_from_raw`] holds.
    pub broadcast proof fn lemma_spec_from_raw(keeper: &'a RecordKeeper, raw: usize)
        ensures
            (#[trigger] Self::spec_from_raw(keeper, raw)).raw() == raw,
            Self::spec_from_raw(keeper, raw).keeper() == keeper,
    {
    }

    /// Creates a reference to the value with the given number.
    pub fn from_raw(keeper: &'a RecordKeeper, raw: usize) -> (init: Self)
        requires
            raw < keeper@.inits().len(),
            keeper@.inits()[raw as int] is String || keeper@.inits()[raw as int] is Code,
        ensures
            init == Self::spec_from_raw(keeper, raw),
            init.raw() == raw,
            init.keeper() == keeper,
    {
        Self { raw, keeper }
    }

    /// Returns the number of the value in the graph.
    pub fn to_raw(self) -> (raw: usize)
        ensures
            raw == self.raw(),
    {
        self.raw
    }

    /// Returns the value as the graph holds it.
    fn get_node(self) -> (node: &'a RawInit)
        ensures
            *node == self.node(),
            self.wf(),
            self.keeper()@.wf(),
    {
        proof {
            use_type_invariant(&self);
        }
        self.keeper.raw().init(self.raw)
    }
}

/// A reference to a value that names a record.
///
/// The reference cannot outlive the [`RecordKeeper`] that owns the value.
#[derive(Clone, Copy)]
pub struct DefInit<'a> {
    raw: usize,
    keeper: &'a RecordKeeper,
}

impl<'a> DefInit<'a> {
    /// The number of the value in the graph.
    pub closed spec fn raw(&self) -> usize {
        self.raw
    }

    /// The record keeper that owns the value.
    pub closed spec fn keeper(&self) -> &'a RecordKeeper {
        self.keeper
    }

    /// The value as the graph holds it.
    pub open spec fn node(&self) -> RawInit {
        self.keeper()@.inits()[self.raw() as int]
    }

    /// The graph holds a value of this kind under the number of the
    /// reference.
    #[verifier::type_invariant]
    pub open spec fn wf(&self) -> bool {
        &&& self.raw() < self.keeper()@.inits().len()
        &&& (self.node() is Def)
    }

    /// The reference that [`DefInit::from_raw`] creates.
    pub closed spec fn spec_from_raw(keeper: &'a RecordKeeper, raw: usize) -> Self {
        DefInit { raw, keeper }
    }

    /// Says what [`DefInit::spec_from_raw`] holds.
    pub broadcast proof fn lemma_spec_from_raw(keeper: &'a RecordKeeper, raw: usize)
        ensures
            (#[trigger] Self::spec_from_raw(keeper, raw)).raw() == raw,
            Self::spec_from_raw(keeper, raw).keeper() == keeper,
    {
    }

    /// Creates a reference to the value with the given number.
    pub fn from_raw(keeper: &'a RecordKeeper, raw: usize) -> (init: Self)
        requires
            raw < keeper@.inits().len(),
            keeper@.inits()[raw as int] is Def,
        ensures
            init == Self::spec_from_raw(keeper, raw),
            init.raw() == raw,
            init.keeper() == keeper,
    {
        Self { raw, keeper }
    }

    /// Returns the number of the value in the graph.
    pub fn to_raw(self) -> (raw: usize)
        ensures
            raw == self.raw(),
    {
        self.raw
    }

    /// Returns the value as the graph holds it.
    fn get_node(self) -> (node: &'a RawInit)
        ensures
            *node == self.node(),
            self.wf(),
            self.keeper()@.wf(),
    {
        proof {
            use_type_invariant(&self);
        }
        self.keeper.raw().init(self.raw)
    }
}

/// A reference to a dag.
///
/// The reference cannot outlive the [`RecordKeeper`] that owns the value.
#[derive(Clone, Copy)]
pub struct DagInit<'a> {
    raw: usize,
    keeper: &'a RecordKeeper,
}

impl<'a> DagInit<'a> {
    /// The number of the value in the graph.
    pub closed spec fn raw(&self) -> usize {
        self.raw
    }

    /// The record keeper that owns the value.
    pub closed spec fn keeper(&self) -> &'a RecordKeeper {
        self.keeper
    }

    /// The value as the graph holds it.
    pub open spec fn node(&self) -> RawInit {
        self.keeper()@.inits()[self.raw() as int]
    }

    /// The graph holds a value of this kind under the number of the
    /// reference.
    #[verifier::type_invariant]
    pub open spec fn wf(&self) -> bool {
        &&& self.raw() < self.keeper()@.inits().len()
        &&& (self.node() is Dag)
    }

    /// The reference that [`DagInit::from_raw`] creates.
    pub closed spec fn spec_from_raw(keeper: &'a RecordKeeper, raw: usize) -> Self {
        DagInit { raw, keeper }
    }

    /// Says what [`DagInit::spec_from_raw`] holds.
    pub broadcast proof fn lemma_spec_from_raw(keeper: &'a RecordKeeper, raw: usize)
        ensures
            (#[trigger] Self::spec_from_raw(keeper, raw)).raw() == raw,
            Self::spec_from_raw(keeper, raw).keeper() == keeper,
    {
    }

    /// Creates a reference to the value with the given number.
    pub fn from_raw(keeper: &'a RecordKeeper, raw: usize) -> (init: Self)
        requires
            raw < keeper@.inits().len(),
            keeper@.inits()[raw as int] is Dag,
        ensures
            init == Self::spec_from_raw(keeper, raw),
            init.raw() == raw,
            init.keeper() == keeper,
    {
        Self { raw, keeper }
    }

    /// Returns the number of the value in the graph.
    pub fn to_raw(self) -> (raw: usize)
        ensures
            raw == self.raw(),
    {
        self.raw
    }

    /// Returns the value as the graph holds it.
    fn get_node(self) -> (node: &'a RawInit)
        ensures
            *node == self.node(),
            self.wf(),
            self.keeper()@.wf(),
    {
        proof {
            use_type_invariant(&self);
        }
        self.keeper.raw().init(self.raw)
    }
}

/// A reference to a list.
///
/// The reference cannot outlive the [`RecordKeeper`] that owns the value.
#[derive(Clone, Copy)]
pub struct ListInit<'a> {
    raw: usize,
    keeper: &'a RecordKeeper,
}

impl<'a> ListInit<'a> {
    /// The number of the value in the graph.
    pub closed spec fn raw(&self) -> usize {
        self.raw
    }

    /// The record keeper that owns the value.
    pub closed spec fn keeper(&self) -> &'a RecordKeeper {
        self.keeper
    }

    /// The value as the graph holds it.
    pub open spec fn node(&self) -> RawInit {
        self.keeper()@.inits()[self.raw() as int]
    }

    /// The graph holds a value of this kind under the number of the
    /// reference.
    #[verifier::type_invariant]
    pub open spec fn wf(&self) -> bool {
        &&& self.raw() < self.keeper()@.inits().len()
        &&& (self.node() is List)
    }

    /// The reference that [`ListInit::from_raw`] creates.
    pub closed spec fn spec_from_raw(keeper: &'a RecordKeeper, raw: usize) -> Self {
        ListInit { raw, keeper }
    }

    /// Says what [`ListInit::spec_from_raw`] holds.
    pub broadcast proof fn lemma_spec_from_raw(keeper: &'a RecordKeeper, raw: usize)
        ensures
            (#[trigger] Self::spec_from_raw(keeper, raw)).raw() == raw,
            Self::spec_from_raw(keeper, raw).keeper() == keeper,
    {
    }

    /// Creates a reference to the value with the given number.
    pub fn from_raw(keeper: &'a RecordKeeper, raw: usize) -> (init: Self)
        requires
            raw < keeper@.inits().len(),
            keeper@.inits()[raw as int] is List,
        ensures
            init == Self::spec_from_raw(keeper, raw),
            init.raw() == raw,
            init.keeper() == keeper,
    {
        Self { raw, keeper }
    }

    /// Returns the number of the value in the graph.
    pub fn to_raw(self) -> (raw: usize)
        ensures
            raw == self.raw(),
    {
        self.raw
    }

    /// Returns the value as the graph holds it.
    fn get_node(self) -> (node: &'a RawInit)
        ensures
            *node == self.node(),
            self.wf(),
            self.keeper()@.wf(),
    {
        proof {
            use_type_invariant(&self);
        }
        self.keeper.raw().init(self.raw)
    }
}

impl<'a> BitInit<'a> {
    /// The bit as a boolean.
    pub open spec fn spec_bool(&self) -> bool {
        self.node()->Bit_0 != 0
    }
}

impl<'a> From<BitInit<'a>> for bool {
    fn from(value: BitInit<'a>) -> (bit: bool) {
        match value.get_node() {
            RawInit::Bit(bit) => *bit != 0,
            _ => unreached(),
        }
    }
}

impl<'a> FromSpecImpl<BitInit<'a>> for bool {
    open spec fn obeys_from_spec() -> bool {
        true
    }

    open spec fn from_spec(value: BitInit<'a>) -> bool {
        value.spec_bool()
    }
}

impl<'a> BitsInit<'a> {
    /// The numbers of the bits, the least significant bit first.
    pub open spec fn spec_ids(&self) -> Seq<usize> {
        self.node()->Bits_0@
    }

    /// The bits as booleans, the least significant bit first.
    pub open spec fn spec_bools(&self) -> Seq<bool> {
        Seq::new(
            self.spec_ids().len(),
            |i: int| self.keeper()@.inits()[self.spec_ids()[i] as int]->Bit_0 != 0,
        )
    }

    /// Returns the numbers of the bits.
    fn ids(self) -> (ids: &'a Vec<usize>)
        ensures
            ids@ == self.spec_ids(),
            self.keeper()@.wf(),
            forall|k: int|
                0 <= k < ids@.len() ==> (#[trigger] ids@[k]) < self.keeper()@.inits().len()
                    && self.keeper()@.inits()[ids@[k] as int] is Bit,
    {
        let node = self.get_node();
        proof {
            let inits = self.keeper()@.inits();
            assert(init_valid(
                inits[self.raw() as int],
                self.keeper()@.records().len() as int,
                inits.take(self.raw() as int),
            ));
        }
        match node {
            RawInit::Bits(ids) => ids,
            _ => unreached(),
        }
    }

    /// Returns the bit at the given index. Bit 0 is the least significant
    /// bit: the last one of a bit sequence as it is written in TableGen.
    pub fn bit(self, index: usize) -> (bit: Option<BitInit<'a>>)
        ensures
            index < self.spec_ids().len() ==> bit is Some && bit->Some_0
                == BitInit::spec_from_raw(self.keeper(), self.spec_ids()[index as int]),
            index >= self.spec_ids().len() ==> bit is None,
    {
        let ids = self.ids();
        if index < ids.len() {
            Some(BitInit::from_raw(self.keeper, ids[index]))
        } else {
            None
        }
    }

    /// Returns the number of bits in the init.
    pub fn num_bits(self) -> (len: usize)
        ensures
            len == self.spec_ids().len(),
    {
        self.ids().len()
    }
}

impl<'a> From<BitsInit<'a>> for Vec<BitInit<'a>> {
    fn from(value: BitsInit<'a>) -> (bits: Self)
        ensures
            bits@.len() == value.spec_ids().len(),
            forall|i: int|
                0 <= i < bits@.len() ==> (#[trigger] bits@[i]) == BitInit::spec_from_raw(
                    value.keeper(),
                    value.spec_ids()[i],
                ),
    {
        let ids = value.ids();
        let mut bits: Vec<BitInit<'a>> = Vec::new();
        let mut i: usize = 0;
        while i < ids.len()
            invariant
                i <= ids.len(),
                ids@ == value.spec_ids(),
                forall|k: int|
                    0 <= k < ids@.len() ==> (#[trigger] ids@[k]) < value.keeper()@.inits().len()
                        && value.keeper()@.inits()[ids@[k] as int] is Bit,
                bits@.len() == i,
                forall|k: int|
                    0 <= k < i ==> (#[trigger] bits@[k]) == BitInit::spec_from_raw(
                        value.keeper(),
                        ids@[k],
                    ),
            decreases ids.len() - i,
        {
            bits.push(BitInit::from_raw(value.keeper, ids[i]));
            i = i + 1;
        }
        bits
    }
}

/// No value of the target type can be written down in ghost code:
/// what the conversion gives is stated on `from` itself.
impl<'a> FromSpecImpl<BitsInit<'a>> for Vec<BitInit<'a>> {
    open spec fn obeys_from_spec() -> bool {
        false
    }

    open spec fn from_spec(value: BitsInit<'a>) -> Self {
        arbitrary()
    }
}

impl<'a> From<BitsInit<'a>> for Vec<bool> {
    fn from(value: BitsInit<'a>) -> (bits: Self)
        ensures
            bits@ == value.spec_bools(),
    {
        let ids = value.ids();
        let mut bits: Vec<bool> = Vec::new();
        let mut i: usize = 0;
        while i < ids.len()
            invariant
                i <= ids.len(),
                ids@ == value.spec_ids(),
                forall|k: int|
                    0 <= k < ids@.len() ==> (#[trigger] ids@[k]) < value.keeper()@.inits().len()
                        && value.keeper()@.inits()[ids@[k] as int] is Bit,
                bits@.len() == i,
                forall|k: int| 0 <= k < i ==> bits@[k] == value.spec_bools()[k],
            decreases ids.len() - i,
        {
            bits.push(bool::from(BitInit::from_raw(value.keeper, ids[i])));
            i = i + 1;
        }
        assert(bits@ == value.spec_bools());
        bits
    }
}

/// No value of the target type can be written down in ghost code:
/// what the conversion gives is stated on `from` itself.
impl<'a> FromSpecImpl<BitsInit<'a>> for Vec<bool> {
    open spec fn obeys_from_spec() -> bool {
        false
    }

    open spec fn from_spec(value: BitsInit<'a>) -> Self {
        arbitrary()
    }
}

impl<'a> IntInit<'a> {
    /// The integer.
    pub open spec fn spec_int(&self) -> i64 {
        self.node()->Int_0
    }
}

impl<'a> From<IntInit<'a>> for i64 {
    fn from(value: IntInit<'a>) -> (number: i64) {
        match value.get_node() {
            RawInit::Int(number) => *number,
            _ => unreached(),
        }
    }
}

impl<'a> FromSpecImpl<IntInit<'a>> for i64 {
    open spec fn obeys_from_spec() -> bool {
        true
    }

    open spec fn from_spec(value: IntInit<'a>) -> i64 {
        value.spec_int()
    }
}

impl<'a> StringInit<'a> {
    /// The bytes of the string.
    pub open spec fn spec_bytes(&self) -> Seq<u8> {
        match self.node() {
            RawInit::String(bytes) => bytes@,
            RawInit::Code(bytes) => bytes@,
            _ => Seq::empty(),
        }
    }

    /// Converts the string init to a [`&str`].
    ///
    /// # Errors
    ///
    /// Returns a [`Utf8Error`] if the string init does not contain valid UTF-8.
    pub fn to_str(self) -> (res: Result<&'a str, Utf8Error>)
        ensures
            valid_utf8(self.spec_bytes()) ==> res is Ok && res->Ok_0.spec_bytes()
                == self.spec_bytes(),
            !valid_utf8(self.spec_bytes()) ==> res is Err && res->Err_0 == utf8_error(
                self.spec_bytes(),
            ),
    {
        StringRef::from_raw(self.as_bytes()).as_str()
    }

    /// Gets the string init as a slice of bytes.
    pub fn as_bytes(self) -> (bytes: &'a [u8])
        ensures
            bytes@ == self.spec_bytes(),
    {
        match self.get_node() {
            RawInit::String(bytes) => bytes.as_slice(),
            RawInit::Code(bytes) => bytes.as_slice(),
            _ => unreached(),
        }
    }
}

impl<'a> TryFrom<StringInit<'a>> for String {
    type Error = FromUtf8Error;

    fn try_from(value: StringInit<'a>) -> (res: Result<Self, FromUtf8Error>)
        ensures
            valid_utf8(value.spec_bytes()) ==> res is Ok && res->Ok_0@ == decode_utf8(
                value.spec_bytes(),
            ),
            !valid_utf8(value.spec_bytes()) ==> res is Err && res->Err_0 == from_utf8_error(
                value.spec_bytes(),
            ),
    {
        string_from_utf8(slice_to_vec(value.as_bytes()))
    }
}

/// No value of the target type can be written down in ghost code:
/// what the conversion gives is stated on `try_from` itself.
impl<'a> TryFromSpecImpl<StringInit<'a>> for String {
    open spec fn obeys_try_from_spec() -> bool {
        false
    }

    open spec fn try_from_spec(value: StringInit<'a>) -> Result<Self, FromUtf8Error> {
        arbitrary()
    }
}

impl<'a> TryFrom<StringInit<'a>> for &'a str {
    type Error = Utf8Error;

    fn try_from(value: StringInit<'a>) -> (res: Result<Self, Utf8Error>)
        ensures
            valid_utf8(value.spec_bytes()) ==> res is Ok && res->Ok_0.spec_bytes()
                == value.spec_bytes(),
            !valid_utf8(value.spec_bytes()) ==> res is Err && res->Err_0 == utf8_error(
                value.spec_bytes(),
            ),
    {
        value.to_str()
    }
}

/// No value of the target type can be written down in ghost code:
/// what the conversion gives is stated on `try_from` itself.
impl<'a> TryFromSpecImpl<StringInit<'a>> for &'a str {
    open spec fn obeys_try_from_spec() -> bool {
        false
    }

    open spec fn try_from_spec(value: StringInit<'a>) -> Result<Self, Utf8Error> {
        arbitrary()
    }
}

impl<'a> DefInit<'a> {
    /// The number of the record that the value names.
    pub open spec fn spec_record(&self) -> usize {
        self.node()->Def_0
    }
}

impl<'a> From<DefInit<'a>> for Record<'a> {
    fn from(value: DefInit<'a>) -> (record: Self) {
        let node = value.get_node();
        proof {
            let inits = value.keeper()@.inits();
            assert(init_valid(
                inits[value.raw() as int],
                value.keeper()@.records().len() as int,
                inits.take(value.raw() as int),
            ));
        }
        match node {
            RawInit::Def(record) => Record::from_raw(value.keeper, *record),
            _ => unreached(),
        }
    }
}

impl<'a> FromSpecImpl<DefInit<'a>> for Record<'a> {
    open spec fn obeys_from_spec() -> bool {
        true
    }

    open spec fn from_spec(value: DefInit<'a>) -> Self {
        Record::spec_from_raw(value.keeper(), value.spec_record())
    }
}

impl<'a> DagInit<'a> {
    /// The number of the record that is the operator of the dag.
    pub open spec fn spec_operator(&self) -> usize {
        self.node()->Dag_0
    }

    /// The arguments of the dag.
    pub open spec fn spec_args(&self) -> Seq<RawDagArg> {
        self.node()->Dag_1@
    }

    /// The bytes of the name of the argument at the given index, if the
    /// dag has such an argument and its name is valid UTF-8.
    pub open spec fn spec_name(&self, index: int) -> Option<Seq<u8>> {
        if 0 <= index < self.spec_args().len() {
            match self.spec_args()[index].name {
                Some(bytes) => if valid_utf8(bytes@) {
                    Some(bytes@)
                } else {
                    None
                },
                None => None,
            }
        } else {
            None
        }
    }

    /// Returns the arguments of the dag.
    fn arg_list(self) -> (args: &'a Vec<RawDagArg>)
        ensures
            args@ == self.spec_args(),
            self.spec_operator() < self.keeper()@.records().len(),
            forall|k: int|
                0 <= k < args@.len() ==> (#[trigger] args@[k]).value
                    < self.keeper()@.inits().len(),
    {
        let node = self.get_node();
        proof {
            let inits = self.keeper()@.inits();
            assert(init_valid(
                inits[self.raw() as int],
                self.keeper()@.records().len() as int,
                inits.take(self.raw() as int),
            ));
        }
        match node {
            RawInit::Dag(_, args) => args,
            _ => unreached(),
        }
    }

    /// Returns an iterator over the arguments of the dag.
    ///
    /// The iterator yields tuples `(&str, TypedInit)`.
    pub fn args(self) -> (iter: DagIter<'a>)
        ensures
            iter.dag() == self,
            iter.index() == 0,
    {
        DagIter { dag: self, index: 0 }
    }

    /// Returns the operator of the dag as a [`Record`].
    pub fn operator(self) -> (record: Record<'a>)
        ensures
            record == Record::spec_from_raw(self.keeper(), self.spec_operator()),
    {
        let node = self.get_node();
        proof {
            let inits = self.keeper()@.inits();
            assert(init_valid(
                inits[self.raw() as int],
                self.keeper()@.records().len() as int,
                inits.take(self.raw() as int),
            ));
        }
        match node {
            RawInit::Dag(operator, _) => Record::from_raw(self.keeper, *operator),
            _ => unreached(),
        }
    }

    /// Returns the number of arguments for this dag.
    pub fn num_args(self) -> (len: usize)
        ensures
            len == self.spec_args().len(),
    {
        self.arg_list().len()
    }

    /// Returns the name of the argument at the given index.
    ///
    /// There is none if the dag has no such argument, if the argument has
    /// no name, or if its name is not valid UTF-8.
    pub fn name(self, index: usize) -> (name: Option<&'a str>)
        ensures
            self.spec_name(index as int) matches Some(bytes) ==> name is Some
                && name->Some_0.spec_bytes() == bytes,
            self.spec_name(index as int) is None ==> name is None,
    {
        let args = self.arg_list();
        if index >= args.len() {
            return None;
        }
        match &args[index].name {
            Some(bytes) => match StringRef::from_raw(bytes.as_slice()).as_str() {
                Ok(name) => Some(name),
                Err(_) => None,
            },
            None => None,
        }
    }

    /// Returns the argument at the given index.
    pub fn get(self, index: usize) -> (arg: Option<TypedInit<'a>>)
        ensures
            index < self.spec_args().len() ==> arg is Some && arg->Some_0
                == TypedInit::spec_from_raw(self.keeper(), self.spec_args()[index as int].value),
            index >= self.spec_args().len() ==> arg is None,
    {
        let args = self.arg_list();
        if index < args.len() {
            Some(TypedInit::from_raw(self.keeper, args[index].value))
        } else {
            None
        }
    }
}

/// An iterator over the arguments of a dag.
#[derive(Clone, Copy)]
pub struct DagIter<'a> {
    dag: DagInit<'a>,
    index: usize,
}

impl<'a> DagIter<'a> {
    /// The dag whose arguments the iterator yields.
    pub closed spec fn dag(&self) -> DagInit<'a> {
        self.dag
    }

    /// The index of the argument that comes next.
    pub closed spec fn index(&self) -> usize {
        self.index
    }

    /// Returns the next argument with its name.
    ///
    /// Yields nothing for an argument without a name, or with a name that
    /// is not valid UTF-8, and goes on to the argument after it.
    pub fn next(&mut self) -> (item: Option<(&'a str, TypedInit<'a>)>)
        ensures
            final(self).dag() == old(self).dag(),
            old(self).index() < old(self).dag().spec_args().len() ==> final(self).index() == old(
                self,
            ).index() + 1,
            old(self).index() >= old(self).dag().spec_args().len() ==> final(self).index() == old(
                self,
            ).index(),
            old(self).dag().spec_name(old(self).index() as int) matches Some(bytes) ==> item is Some
                && item->Some_0.0.spec_bytes() == bytes && item->Some_0.1
                == TypedInit::spec_from_raw(
                old(self).dag().keeper(),
                old(self).dag().spec_args()[old(self).index() as int].value,
            ),
            old(self).dag().spec_name(old(self).index() as int) is None ==> item is None,
    {
        let next = self.dag.get(self.index);
        let name = self.dag.name(self.index);
        if self.index < self.dag.num_args() {
            self.index = self.index + 1;
        }
        match (next, name) {
            (Some(next), Some(name)) => Some((name, next)),
            _ => None,
        }
    }
}

impl<'a> ListInit<'a> {
    /// The numbers of the elements of the list.
    pub open spec fn spec_elements(&self) -> Seq<usize> {
        self.node()->List_0@
    }

    /// Returns the numbers of the elements.
    fn elements(self) -> (elements: &'a Vec<usize>)
        ensures
            elements@ == self.spec_elements(),
            forall|k: int|
                0 <= k < elements@.len() ==> (#[trigger] elements@[k])
                    < self.keeper()@.inits().len(),
    {
        let node = self.get_node();
        proof {
            let inits = self.keeper()@.inits();
            assert(init_valid(
                inits[self.raw() as int],
                self.keeper()@.records().len() as int,
                inits.take(self.raw() as int),
            ));
        }
        match node {
            RawInit::List(elements) => elements,
            _ => unreached(),
        }
    }

    /// Returns an iterator over the elements of the list.
    ///
    /// The iterator yields values of type [`TypedInit`].
    pub fn iter(self) -> (iter: ListIter<'a>)
        ensures
            iter.list() == self,
            iter.index() == 0,
    {
        ListIter { list: self, index: 0 }
    }

    /// Returns true if the list is empty.
    pub fn is_empty(self) -> (empty: bool)
        ensures
            empty == (self.spec_elements().len() == 0),
    {
        self.len() == 0
    }

    /// Returns the length of the list.
    pub fn len(self) -> (len: usize)
        ensures
            len == self.spec_elements().len(),
    {
        self.elements().len()
    }

    /// Returns the element at the given index in the list.
    pub fn get(self, index: usize) -> (element: Option<TypedInit<'a>>)
        ensures
            index < self.spec_elements().len() ==> element is Some && element->Some_0
                == TypedInit::spec_from_raw(self.keeper(), self.spec_elements()[index as int]),
            index >= self.spec_elements().len() ==> element is None,
    {
        let elements = self.elements();
        if index < elements.len() {
            Some(TypedInit::from_raw(self.keeper, elements[index]))
        } else {
            None
        }
    }
}

/// An iterator over the elements of a list.
#[derive(Clone, Copy)]
pub struct ListIter<'a> {
    list: ListInit<'a>,
    index: usize,
}

impl<'a> ListIter<'a> {
    /// The list whose elements the iterator yields.
    pub closed spec fn list(&self) -> ListInit<'a> {
        self.list
    }

    /// The index of the element that comes next.
    pub closed spec fn index(&self) -> usize {
        self.index
    }

    /// Returns the next element of the list.
    pub fn next(&mut self) -> (element: Option<TypedInit<'a>>)
        ensures
            final(self).list() == old(self).list(),
            old(self).index() < old(self).list().spec_elements().len() ==> final(self).index()
                == old(self).index() + 1 && element is Some && element->Some_0
                == TypedInit::spec_from_raw(
                old(self).list().keeper(),
                old(self).list().spec_elements()[old(self).index() as int],
            ),
            old(self).index() >= old(self).list().spec_elements().len() ==> final(self).index()
                == old(self).index() && element is None,
    {
        let next = self.list.get(self.index);
        if self.index < self.list.len() {
            self.index = self.index + 1;
        }
        next
    }
}

/// Enum that holds a reference to a typed value.
#[derive(Clone, Copy)]
pub enum TypedInit<'a> {
    Bit(BitInit<'a>),
    Bits(BitsInit<'a>),
    Code(StringInit<'a>),
    Int(IntInit<'a>),
    String(StringInit<'a>),
    List(ListInit<'a>),
    Dag(DagInit<'a>),
    Def(DefInit<'a>),
    Invalid,
}

impl<'a> TypedInit<'a> {
    /// The reference to the value with number `init`, under the variant that
    /// tells its type.
    pub open spec fn spec_from_raw(keeper: &'a RecordKeeper, init: usize) -> Self {
        match keeper@.inits()[init as int] {
            RawInit::Bit(_) => TypedInit::Bit(BitInit::spec_from_raw(keeper, init)),
            RawInit::Bits(_) => TypedInit::Bits(BitsInit::spec_from_raw(keeper, init)),
            RawInit::Code(_) => TypedInit::Code(StringInit::spec_from_raw(keeper, init)),
            RawInit::Int(_) => TypedInit::Int(IntInit::spec_from_raw(keeper, init)),
            RawInit::String(_) => TypedInit::String(StringInit::spec_from_raw(keeper, init)),
            RawInit::List(_) => TypedInit::List(ListInit::spec_from_raw(keeper, init)),
            RawInit::Dag(_, _) => TypedInit::Dag(DagInit::spec_from_raw(keeper, init)),
            RawInit::Def(_) => TypedInit::Def(DefInit::spec_from_raw(keeper, init)),
            RawInit::Unknown => TypedInit::Invalid,
        }
    }

    /// The name of the variant.
    pub open spec fn spec_variant_name(&self) -> &'static str {
        match self {
            TypedInit::Bit(_) => "Bit",
            TypedInit::Bits(_) => "Bits",
            TypedInit::Code(_) => "Code",
            TypedInit::Int(_) => "Int",
            TypedInit::String(_) => "String",
            TypedInit::List(_) => "List",
            TypedInit::Dag(_) => "Dag",
            TypedInit::Def(_) => "Def",
            TypedInit::Invalid => "Invalid",
        }
    }

    /// The number of the value in the graph, if the type of the value is
    /// known.
    pub open spec fn spec_to_raw(&self) -> Option<usize> {
        match self {
            TypedInit::Bit(v) => Some(v.raw()),
            TypedInit::Bits(v) => Some(v.raw()),
            TypedInit::Code(v) => Some(v.raw()),
            TypedInit::Int(v) => Some(v.raw()),
            TypedInit::String(v) => Some(v.raw()),
            TypedInit::List(v) => Some(v.raw()),
            TypedInit::Dag(v) => Some(v.raw()),
            TypedInit::Def(v) => Some(v.raw()),
            TypedInit::Invalid => None,
        }
    }

    /// Returns the number of the value in the graph, if the type of the
    /// value is known.
    pub fn to_raw(&self) -> (raw: Option<usize>)
        ensures
            raw == self.spec_to_raw(),
    {
        match self {
            TypedInit::Bit(v) => Some(v.to_raw()),
            TypedInit::Bits(v) => Some(v.to_raw()),
            TypedInit::Code(v) => Some(v.to_raw()),
            TypedInit::Int(v) => Some(v.to_raw()),
            TypedInit::String(v) => Some(v.to_raw()),
            TypedInit::List(v) => Some(v.to_raw()),
            TypedInit::Dag(v) => Some(v.to_raw()),
            TypedInit::Def(v) => Some(v.to_raw()),
            TypedInit::Invalid => None,
        }
    }

    /// Returns the name of the variant.
    pub fn variant_name(&self) -> (name: &'static str)
        ensures
            name == self.spec_variant_name(),
    {
        match self {
            TypedInit::Bit(_) => "Bit",
            TypedInit::Bits(_) => "Bits",
            TypedInit::Code(_) => "Code",
            TypedInit::Int(_) => "Int",
            TypedInit::String(_) => "String",
            TypedInit::List(_) => "List",
            TypedInit::Dag(_) => "Dag",
            TypedInit::Def(_) => "Def",
            TypedInit::Invalid => "Invalid",
        }
    }

    /// Creates a reference to the value with the given number.
    ///
    /// The variant of the reference tells the type of the value. A value of
    /// a type that this crate does not know becomes [`TypedInit::Invalid`].
    pub fn from_raw(keeper: &'a RecordKeeper, init: usize) -> (typed: Self)
        requires
            init < keeper@.inits().len(),
        ensures
            typed == Self::spec_from_raw(keeper, init),
    {
        match keeper.raw().init(init) {
            RawInit::Bit(_) => Self::Bit(BitInit::from_raw(keeper, init)),
            RawInit::Bits(_) => Self::Bits(BitsInit::from_raw(keeper, init)),
            RawInit::Code(_) => Self::Code(StringInit::from_raw(keeper, init)),
            RawInit::Dag(_, _) => Self::Dag(DagInit::from_raw(keeper, init)),
            RawInit::Int(_) => Self::Int(IntInit::from_raw(keeper, init)),
            RawInit::List(_) => Self::List(ListInit::from_raw(keeper, init)),
            RawInit::Def(_) => Self::Def(DefInit::from_raw(keeper, init)),
            RawInit::String(_) => Self::String(StringInit::from_raw(keeper, init)),
            _ => Self::Invalid,
        }
    }
}

/// The error, located at `loc`, of a value of the type `from` that is asked
/// for as the type `to`.
pub open spec fn conversion_error(loc: SourceLocation, from: &'static str, to: &'static str)
    -> Error {
    SourceError::spec_new(loc, TableGenError::InitConversion { from, to, cause: None })
}

/// The error, located at `loc`, of text of the type `from` that is asked for
/// as a [`&str`] and is not valid UTF-8.
pub open spec fn invalid_str_error(loc: SourceLocation, from: &'static str, bytes: Seq<u8>)
    -> Error {
    SourceError::spec_new(
        loc,
        TableGenError::InitConversion {
            from,
            to: "&str",
            cause: Some(EncodingError::Str(utf8_error(bytes))),
        },
    )
}

/// The error, located at `loc`, of text of the type `from` that is asked for
/// as a [`String`] and is not valid UTF-8.
pub open spec fn invalid_string_error(loc: SourceLocation, from: &'static str, bytes: Seq<u8>)
    -> Error {
    SourceError::spec_new(
        loc,
        TableGenError::InitConversion {
            from,
            to: "alloc::string::String",
            cause: Some(EncodingError::String(from_utf8_error(bytes))),
        },
    )
}

/// Makes the error of a value that is asked for as a type that it does not
/// have. The error has no location.
fn conversion_failed(from: &'static str, to: &'static str) -> (e: Error)
    ensures
        e == conversion_error(SourceLocation { raw: None }, from, to),
{
    Error::from(TableGenError::InitConversion { from, to, cause: None })
}

impl<'a> TypedInit<'a> {
    /// The bytes of the value, if it is a string or a piece of code.
    pub open spec fn spec_text(&self) -> Option<Seq<u8>> {
        match self {
            TypedInit::String(v) => Some(v.spec_bytes()),
            TypedInit::Code(v) => Some(v.spec_bytes()),
            _ => None,
        }
    }

    /// What the value gives when it is asked for as a `bool`. An error is
    /// located at `loc`.
    pub open spec fn spec_to_bool(&self, loc: SourceLocation) -> Result<bool, Error> {
        match self {
            TypedInit::Bit(v) => Ok(v.spec_bool()),
            _ => Err(conversion_error(loc, self.spec_variant_name(), "bool")),
        }
    }

    /// What the value gives when it is asked for as an `i64`. An error is
    /// located at `loc`.
    pub open spec fn spec_to_int(&self, loc: SourceLocation) -> Result<i64, Error> {
        match self {
            TypedInit::Int(v) => Ok(v.spec_int()),
            _ => Err(conversion_error(loc, self.spec_variant_name(), "i64")),
        }
    }

    /// What the value gives when it is asked for as a [`Record`]. An error
    /// is located at `loc`.
    pub open spec fn spec_to_record(&self, loc: SourceLocation) -> Result<Record<'a>, Error> {
        match self {
            TypedInit::Def(v) => Ok(Record::spec_from_raw(v.keeper(), v.spec_record())),
            _ => Err(conversion_error(loc, self.spec_variant_name(), "tblgen::record::Record")),
        }
    }

    /// What the value gives when it is asked for as a [`ListInit`]. An error
    /// is located at `loc`.
    pub open spec fn spec_to_list(&self, loc: SourceLocation) -> Result<ListInit<'a>, Error> {
        match self {
            TypedInit::List(v) => Ok(*v),
            _ => Err(conversion_error(loc, self.spec_variant_name(), "tblgen::init::ListInit")),
        }
    }

    /// What the value gives when it is asked for as a [`DagInit`]. An error
    /// is located at `loc`.
    pub open spec fn spec_to_dag(&self, loc: SourceLocation) -> Result<DagInit<'a>, Error> {
        match self {
            TypedInit::Dag(v) => Ok(*v),
            _ => Err(conversion_error(loc, self.spec_variant_name(), "tblgen::init::DagInit")),
        }
    }

    /// Whether `res` is what the value gives when it is asked for as a
    /// `Vec<bool>`, an error being located at `loc`.
    pub open spec fn yields_bools(&self, loc: SourceLocation, res: Result<Vec<bool>, Error>)
        -> bool {
        match self {
            TypedInit::Bits(v) => res is Ok && res->Ok_0@ == v.spec_bools(),
            _ => res is Err && res->Err_0 == conversion_error(
                loc,
                self.spec_variant_name(),
                "alloc::vec::Vec<bool>",
            ),
        }
    }

    /// Whether `res` is what the value gives when it is asked for as a
    /// `Vec<BitInit>`, an error being located at `loc`.
    pub open spec fn yields_bit_inits(
        &self,
        loc: SourceLocation,
        res: Result<Vec<BitInit<'a>>, Error>,
    ) -> bool {
        match self {
            TypedInit::Bits(v) => res is Ok && res->Ok_0@.len() == v.spec_ids().len()
                && forall|i: int|
                0 <= i < v.spec_ids().len() ==> (#[trigger] res->Ok_0@[i])
                    == BitInit::spec_from_raw(v.keeper(), v.spec_ids()[i]),
            _ => res is Err && res->Err_0 == conversion_error(
                loc,
                self.spec_variant_name(),
                "alloc::vec::Vec<tblgen::init::BitInit>",
            ),
        }
    }

    /// Whether `res` is what the value gives when it is asked for as a
    /// `String`, an error being located at `loc`. Text that is not valid
    /// UTF-8 gives a conversion error whose cause tells so.
    pub open spec fn yields_string(&self, loc: SourceLocation, res: Result<String, Error>)
        -> bool {
        match self.spec_text() {
            Some(bytes) => if valid_utf8(bytes) {
                res is Ok && res->Ok_0@ == decode_utf8(bytes)
            } else {
                res is Err && res->Err_0 == invalid_string_error(
                    loc,
                    self.spec_variant_name(),
                    bytes,
                )
            },
            None => res is Err && res->Err_0 == conversion_error(
                loc,
                self.spec_variant_name(),
                "alloc::string::String",
            ),
        }
    }

    /// Whether `res` is what the value gives when it is asked for as a
    /// `&str`, an error being located at `loc`. Text that is not valid
    /// UTF-8 gives a conversion error whose cause tells so.
    pub open spec fn yields_str(&self, loc: SourceLocation, res: Result<&'a str, Error>) -> bool {
        match self.spec_text() {
            Some(bytes) => if valid_utf8(bytes) {
                res is Ok && res->Ok_0.spec_bytes() == bytes
            } else {
                res is Err && res->Err_0 == invalid_str_error(loc, self.spec_variant_name(), bytes)
            },
            None => res is Err && res->Err_0 == conversion_error(
                loc,
                self.spec_variant_name(),
                "&str",
            ),
        }
    }

    /// Returns the reference to the value as a bit.
    ///
    /// Fails with a conversion error if the value is of another type.
    pub fn as_bit(self) -> (res: Result<BitInit<'a>, Error>)
        ensures
            self matches TypedInit::Bit(v) ==> res is Ok && res->Ok_0 == v,
            !(self is Bit) ==> res is Err && res->Err_0 == conversion_error(
                SourceLocation { raw: None },
                self.spec_variant_name(),
                "tblgen::init::BitInit",
            ),
    {
        match self {
            Self::Bit(v) => Ok(v),
            _ => Err(conversion_failed(self.variant_name(), "tblgen::init::BitInit")),
        }
    }

    /// Returns the reference to the value as a sequence of bits.
    ///
    /// Fails with a conversion error if the value is of another type.
    pub fn as_bits(self) -> (res: Result<BitsInit<'a>, Error>)
        ensures
            self matches TypedInit::Bits(v) ==> res is Ok && res->Ok_0 == v,
            !(self is Bits) ==> res is Err && res->Err_0 == conversion_error(
                SourceLocation { raw: None },
                self.spec_variant_name(),
                "tblgen::init::BitsInit",
            ),
    {
        match self {
            Self::Bits(v) => Ok(v),
            _ => Err(conversion_failed(self.variant_name(), "tblgen::init::BitsInit")),
        }
    }

    /// Returns the reference to the value as a piece of code.
    ///
    /// Fails with a conversion error if the value is of another type.
    pub fn as_code(self) -> (res: Result<StringInit<'a>, Error>)
        ensures
            self matches TypedInit::Code(v) ==> res is Ok && res->Ok_0 == v,
            !(self is Code) ==> res is Err && res->Err_0 == conversion_error(
                SourceLocation { raw: None },
                self.spec_variant_name(),
                "tblgen::init::StringInit",
            ),
    {
        match self {
            Self::Code(v) => Ok(v),
            _ => Err(conversion_failed(self.variant_name(), "tblgen::init::StringInit")),
        }
    }

    /// Returns the reference to the value as an integer.
    ///
    /// Fails with a conversion error if the value is of another type.
    pub fn as_int(self) -> (res: Result<IntInit<'a>, Error>)
        ensures
            self matches TypedInit::Int(v) ==> res is Ok && res->Ok_0 == v,
            !(self is Int) ==> res is Err && res->Err_0 == conversion_error(
                SourceLocation { raw: None },
                self.spec_variant_name(),
                "tblgen::init::IntInit",
            ),
    {
        match self {
            Self::Int(v) => Ok(v),
            _ => Err(conversion_failed(self.variant_name(), "tblgen::init::IntInit")),
        }
    }

    /// Returns the reference to the value as a string.
    ///
    /// Fails with a conversion error if the value is of another type.
    pub fn as_string(self) -> (res: Result<StringInit<'a>, Error>)
        ensures
            self matches TypedInit::String(v) ==> res is Ok && res->Ok_0 == v,
            !(self is String) ==> res is Err && res->Err_0 == conversion_error(
                SourceLocation { raw: None },
                self.spec_variant_name(),
                "tblgen::init::StringInit",
            ),
    {
        match self {
            Self::String(v) => Ok(v),
            _ => Err(conversion_failed(self.variant_name(), "tblgen::init::StringInit")),
        }
    }

    /// Returns the reference to the value as a list.
    ///
    /// Fails with a conversion error if the value is of another type.
    pub fn as_list(self) -> (res: Result<ListInit<'a>, Error>)
        ensures
            self matches TypedInit::List(v) ==> res is Ok && res->Ok_0 == v,
            !(self is List) ==> res is Err && res->Err_0 == conversion_error(
                SourceLocation { raw: None },
                self.spec_variant_name(),
                "tblgen::init::ListInit",
            ),
    {
        match self {
            Self::List(v) => Ok(v),
            _ => Err(conversion_failed(self.variant_name(), "tblgen::init::ListInit")),
        }
    }

    /// Returns the reference to the value as a dag.
    ///
    /// Fails with a conversion error if the value is of another type.
    pub fn as_dag(self) -> (res: Result<DagInit<'a>, Error>)
        ensures
            self matches TypedInit::Dag(v) ==> res is Ok && res->Ok_0 == v,
            !(self is Dag) ==> res is Err && res->Err_0 == conversion_error(
                SourceLocation { raw: None },
                self.spec_variant_name(),
                "tblgen::init::DagInit",
            ),
    {
        match self {
            Self::Dag(v) => Ok(v),
            _ => Err(conversion_failed(self.variant_name(), "tblgen::init::DagInit")),
        }
    }

    /// Returns the reference to the value as a reference to a record.
    ///
    /// Fails with a conversion error if the value is of another type.
    pub fn as_def(self) -> (res: Result<DefInit<'a>, Error>)
        ensures
            self matches TypedInit::Def(v) ==> res is Ok && res->Ok_0 == v,
            !(self is Def) ==> res is Err && res->Err_0 == conversion_error(
                SourceLocation { raw: None },
                self.spec_variant_name(),
                "tblgen::init::DefInit",
            ),
    {
        match self {
            Self::Def(v) => Ok(v),
            _ => Err(conversion_failed(self.variant_name(), "tblgen::init::DefInit")),
        }
    }
}

impl<'a> TryFrom<TypedInit<'a>> for bool {
    type Error = Error;

    fn try_from(value: TypedInit<'a>) -> (res: Result<Self, Error>) {
        match value {
            TypedInit::Bit(v) => Ok(Self::from(v)),
            _ => Err(conversion_failed(value.variant_name(), "bool")),
        }
    }
}

impl<'a> TryFromSpecImpl<TypedInit<'a>> for bool {
    open spec fn obeys_try_from_spec() -> bool {
        true
    }

    open spec fn try_from_spec(value: TypedInit<'a>) -> Result<Self, Error> {
        value.spec_to_bool(SourceLocation { raw: None })
    }
}

impl<'a> TryFrom<TypedInit<'a>> for i64 {
    type Error = Error;

    fn try_from(value: TypedInit<'a>) -> (res: Result<Self, Error>) {
        match value {
            TypedInit::Int(v) => Ok(Self::from(v)),
            _ => Err(conversion_failed(value.variant_name(), "i64")),
        }
    }
}

impl<'a> TryFromSpecImpl<TypedInit<'a>> for i64 {
    open spec fn obeys_try_from_spec() -> bool {
        true
    }

    open spec fn try_from_spec(value: TypedInit<'a>) -> Result<Self, Error> {
        value.spec_to_int(SourceLocation { raw: None })
    }
}

impl<'a> TryFrom<TypedInit<'a>> for Record<'a> {
    type Error = Error;

    fn try_from(value: TypedInit<'a>) -> (res: Result<Self, Error>) {
        match value {
            TypedInit::Def(v) => Ok(Self::from(v)),
            _ => Err(conversion_failed(value.variant_name(), "tblgen::record::Record")),
        }
    }
}

impl<'a> TryFromSpecImpl<TypedInit<'a>> for Record<'a> {
    open spec fn obeys_try_from_spec() -> bool {
        true
    }

    open spec fn try_from_spec(value: TypedInit<'a>) -> Result<Self, Error> {
        value.spec_to_record(SourceLocation { raw: None })
    }
}

impl<'a> TryFrom<TypedInit<'a>> for ListInit<'a> {
    type Error = Error;

    fn try_from(value: TypedInit<'a>) -> (res: Result<Self, Error>) {
        match value {
            TypedInit::List(v) => Ok(v),
            _ => Err(conversion_failed(value.variant_name(), "tblgen::init::ListInit")),
        }
    }
}

impl<'a> TryFromSpecImpl<TypedInit<'a>> for ListInit<'a> {
    open spec fn obeys_try_from_spec() -> bool {
        true
    }

    open spec fn try_from_spec(value: TypedInit<'a>) -> Result<Self, Error> {
        value.spec_to_list(SourceLocation { raw: None })
    }
}

impl<'a> TryFrom<TypedInit<'a>> for DagInit<'a> {
    type Error = Error;

    fn try_from(value: TypedInit<'a>) -> (res: Result<Self, Error>) {
        match value {
            TypedInit::Dag(v) => Ok(v),
            _ => Err(conversion_failed(value.variant_name(), "tblgen::init::DagInit")),
        }
    }
}

impl<'a> TryFromSpecImpl<TypedInit<'a>> for DagInit<'a> {
    open spec fn obeys_try_from_spec() -> bool {
        true
    }

    open spec fn try_from_spec(value: TypedInit<'a>) -> Result<Self, Error> {
        value.spec_to_dag(SourceLocation { raw: None })
    }
}

impl<'a> TryFrom<TypedInit<'a>> for Vec<BitInit<'a>> {
    type Error = Error;

    fn try_from(value: TypedInit<'a>) -> (res: Result<Self, Error>)
        ensures
            value.yields_bit_inits(SourceLocation { raw: None }, res),
    {
        match value {
            TypedInit::Bits(v) => Ok(Self::from(v)),
            _ => Err(conversion_failed(value.variant_name(), "alloc::vec::Vec<tblgen::init::BitInit>")),
        }
    }
}

/// No value of the target type can be written down in ghost code:
/// what the conversion gives is stated on `try_from` itself.
impl<'a> TryFromSpecImpl<TypedInit<'a>> for Vec<BitInit<'a>> {
    open spec fn obeys_try_from_spec() -> bool {
        false
    }

    open spec fn try_from_spec(value: TypedInit<'a>) -> Result<Self, Error> {
        arbitrary()
    }
}

impl<'a> TryFrom<TypedInit<'a>> for Vec<bool> {
    type Error = Error;

    fn try_from(value: TypedInit<'a>) -> (res: Result<Self, Error>)
        ensures
            value.yields_bools(SourceLocation { raw: None }, res),
    {
        match value {
            TypedInit::Bits(v) => Ok(Self::from(v)),
            _ => Err(conversion_failed(value.variant_name(), "alloc::vec::Vec<bool>")),
        }
    }
}

/// No value of the target type can be written down in ghost code:
/// what the conversion gives is stated on `try_from` itself.
impl<'a> TryFromSpecImpl<TypedInit<'a>> for Vec<bool> {
    open spec fn obeys_try_from_spec() -> bool {
        false
    }

    open spec fn try_from_spec(value: TypedInit<'a>) -> Result<Self, Error> {
        arbitrary()
    }
}

impl<'a> TryFrom<TypedInit<'a>> for String {
    type Error = Error;

    fn try_from(value: TypedInit<'a>) -> (res: Result<Self, Error>)
        ensures
            value.yields_string(SourceLocation { raw: None }, res),
    {
        match value {
            TypedInit::String(v) | TypedInit::Code(v) => match Self::try_from(v) {
                Ok(text) => Ok(text),
                Err(e) => Err(
                    Error::from(
                        TableGenError::InitConversion {
                            from: value.variant_name(),
                            to: "alloc::string::String",
                            cause: Some(EncodingError::String(e)),
                        },
                    ),
                ),
            },
            _ => Err(conversion_failed(value.variant_name(), "alloc::string::String")),
        }
    }
}

/// No value of the target type can be written down in ghost code:
/// what the conversion gives is stated on `try_from` itself.
impl<'a> TryFromSpecImpl<TypedInit<'a>> for String {
    open spec fn obeys_try_from_spec() -> bool {
        false
    }

    open spec fn try_from_spec(value: TypedInit<'a>) -> Result<Self, Error> {
        arbitrary()
    }
}

impl<'a> TryFrom<TypedInit<'a>> for &'a str {
    type Error = Error;

    fn try_from(value: TypedInit<'a>) -> (res: Result<Self, Error>)
        ensures
            value.yields_str(SourceLocation { raw: None }, res),
    {
        match value {
            TypedInit::String(v) | TypedInit::Code(v) => match v.to_str() {
                Ok(text) => Ok(text),
                Err(e) => Err(
                    Error::from(
                        TableGenError::InitConversion {
                            from: value.variant_name(),
                            to: "&str",
                            cause: Some(EncodingError::Str(e)),
                        },
                    ),
                ),
            },
            _ => Err(conversion_failed(value.variant_name(), "&str")),
        }
    }
}

/// No value of the target type can be written down in ghost code:
/// what the conversion gives is stated on `try_from` itself.
impl<'a> TryFromSpecImpl<TypedInit<'a>> for &'a str {
    open spec fn obeys_try_from_spec() -> bool {
        false
    }

    open spec fn try_from_spec(value: TypedInit<'a>) -> Result<Self, Error> {
        arbitrary()
    }
}

} // verus!
