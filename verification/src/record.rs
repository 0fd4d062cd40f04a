//! Records and their fields.

use crate::error::{Error, SourceError, SourceLoc, SourceLocation, TableGenError};
use crate::init::{BitInit, DagInit, ListInit, StringInit, TypedInit};
use crate::raw::{
    derives, record_wf, subclass_named, values_wf, RawInit, RawRecord, RawRecordVal,
};
use crate::record_keeper::RecordKeeper;
use crate::string_ref::{bytes_eq, utf8_error, StringRef};
use vstd::pervasive::{arbitrary, unreached};
use vstd::prelude::*;
use vstd::std_specs::convert::FromSpecImpl;
use vstd::string::StringSliceAdditionalSpecFns;
use vstd::utf8::valid_utf8;

verus! {

/// The bytes of the name of a field.
pub open spec fn field_name(field: RawRecordVal, inits: Seq<RawInit>) -> Seq<u8> {
    inits[field.name as int]->String_0@
}

/// The position of the first field with the given name.
pub open spec fn first_field(fields: Seq<RawRecordVal>, inits: Seq<RawInit>, name: Seq<u8>)
    -> Option<int>
    decreases fields.len(),
{
    if fields.len() == 0 {
        None
    } else {
        match first_field(fields.drop_last(), inits, name) {
            Some(k) => Some(k),
            None => if field_name(fields.last(), inits) == name {
                Some(fields.len() - 1)
            } else {
                None
            },
        }
    }
}

/// The field that [`first_field`] finds has the name asked for, and no field
/// before it has.
pub proof fn lemma_first_field(fields: Seq<RawRecordVal>, inits: Seq<RawInit>, name: Seq<u8>)
    ensures
        first_field(fields, inits, name) matches Some(k) ==> 0 <= k < fields.len() && field_name(
            fields[k],
            inits,
        ) == name && forall|j: int| 0 <= j < k ==> field_name(#[trigger] fields[j], inits) != name,
        first_field(fields, inits, name) is None ==> forall|j: int|
            0 <= j < fields.len() ==> field_name(#[trigger] fields[j], inits) != name,
    decreases fields.len(),
{
    if fields.len() > 0 {
        let rest = fields.drop_last();
        lemma_first_field(rest, inits, name);
        assert forall|j: int| 0 <= j < rest.len() implies rest[j] == #[trigger] fields[j] by {}
    }
}

/// A field that is the first of its name among some fields is the first of
/// its name among more fields.
proof fn lemma_first_field_prefix(
    fields: Seq<RawRecordVal>,
    inits: Seq<RawInit>,
    name: Seq<u8>,
    n: int,
)
    requires
        0 <= n <= fields.len(),
        first_field(fields.take(n), inits, name) is Some,
    ensures
        first_field(fields, inits, name) == first_field(fields.take(n), inits, name),
    decreases fields.len() - n,
{
    if n < fields.len() {
        assert(fields.take(n + 1).drop_last() == fields.take(n));
        lemma_first_field_prefix(fields, inits, name, n + 1);
    } else {
        assert(fields.take(n) == fields);
    }
}

/// Whether `e` says, at the location `loc`, that a record has no field
/// called `name`.
pub open spec fn missing_value(e: Error, loc: SourceLocation, name: Seq<char>) -> bool {
    &&& e.spec_location() == loc
    &&& e.spec_message() is None
    &&& e.spec_error() matches TableGenError::MissingValue(field)
    &&& field@ == name
}

/// The error of a missing field is no conversion error: the two can be told
/// apart.
pub proof fn lemma_missing_is_no_mismatch(e: Error, loc: SourceLocation, name: Seq<char>)
    requires
        missing_value(e, loc, name),
    ensures
        e.spec_error() is MissingValue,
        !(e.spec_error() is InitConversion),
{
}

/// An immutable reference to a TableGen record.
///
/// This reference cannot outlive the [`RecordKeeper`] from which it is
/// borrowed.
#[derive(Clone, Copy)]
pub struct Record<'a> {
    raw: usize,
    keeper: &'a RecordKeeper,
}

impl<'a> Record<'a> {
    /// The number of the record in the graph.
    pub closed spec fn raw(&self) -> usize {
        self.raw
    }

    /// The record keeper that owns the record.
    pub closed spec fn keeper(&self) -> &'a RecordKeeper {
        self.keeper
    }

    /// The record as the graph holds it.
    pub open spec fn data(&self) -> RawRecord {
        self.keeper()@.records()[self.raw() as int]
    }

    /// The fields of the record, in the order of their declaration.
    pub open spec fn fields(&self) -> Seq<RawRecordVal> {
        self.keeper()@.values()[self.raw() as int]@
    }

    /// The position of the first field with the given name.
    pub open spec fn field_index(&self, name: Seq<u8>) -> Option<int> {
        first_field(self.fields(), self.keeper()@.inits(), name)
    }

    /// The field at the given position.
    pub open spec fn field(&self, index: int) -> RecordValue<'a> {
        RecordValue::spec_from_raw(self.keeper(), self.raw(), index as usize)
    }

    /// Whether the record derives, directly or through other classes, from
    /// a class with the given name.
    pub open spec fn spec_subclass_of(&self, class: Seq<u8>) -> bool {
        subclass_named(self.keeper()@.records(), self.raw() as int, class)
    }

    /// The graph holds a record under the number of the reference.
    #[verifier::type_invariant]
    pub open spec fn wf(&self) -> bool {
        self.raw() < self.keeper()@.records().len()
    }

    /// A record is a subclass of a name exactly if one of the classes that
    /// the graph lists as its superclasses has that name.
    pub proof fn lemma_subclass_of_superclasses(self, class: Seq<u8>)
        requires
            self.wf(),
            self.keeper()@.wf(),
        ensures
            self.spec_subclass_of(class) <==> exists|k: int|
                0 <= k < self.data().superclasses@.len() && self.keeper()@.records()[(
                #[trigger] self.data().superclasses@[k]) as int].name@ == class,
    {
        let records = self.keeper()@.records();
        let superclasses = self.data().superclasses@;
        assert(record_wf(records, self.raw() as int));
        if self.spec_subclass_of(class) {
            let c = choose|c: int| #[trigger]
                derives(records, self.raw() as int, c) && records[c].name@ == class;
            crate::raw::lemma_derives_class(records, self.raw() as int, c);
            assert(superclasses.contains(c as usize));
            let k = choose|k: int| 0 <= k < superclasses.len() && superclasses[k] == c as usize;
            assert(records[superclasses[k] as int].name@ == class);
        }
        if exists|k: int|
            0 <= k < superclasses.len() && records[(#[trigger] superclasses[k]) as int].name@
                == class {
            let k = choose|k: int|
                0 <= k < superclasses.len() && records[(#[trigger] superclasses[k]) as int].name@
                    == class;
            assert(superclasses.contains(superclasses[k]));
            assert(derives(records, self.raw() as int, superclasses[k] as int));
        }
    }

    /// A record is a subclass of each class that it was declared to derive
    /// from.
    pub proof fn lemma_subclass_of_parent(self, k: int)
        requires
            self.wf(),
            self.keeper()@.wf(),
            0 <= k < self.data().parents@.len(),
        ensures
            self.spec_subclass_of(
                self.keeper()@.records()[self.data().parents@[k] as int].name@,
            ),
    {
        let records = self.keeper()@.records();
        assert(record_wf(records, self.raw() as int));
        let p = self.data().parents@[k] as int;
        assert(derives(records, self.raw() as int, p));
    }

    /// A record is a subclass of whatever its superclasses are subclasses
    /// of.
    pub proof fn lemma_subclass_of_transitive(self, through: Record<'a>, class: Seq<u8>)
        requires
            self.keeper() == through.keeper(),
            derives(self.keeper()@.records(), self.raw() as int, through.raw() as int),
            through.spec_subclass_of(class),
        ensures
            self.spec_subclass_of(class),
    {
        let records = self.keeper()@.records();
        let c = choose|c: int| #[trigger]
            derives(records, through.raw() as int, c) && records[c].name@ == class;
        crate::raw::lemma_derives_transitive(records, self.raw() as int, through.raw() as int, c);
    }

    /// A record that was declared to derive from nothing is a subclass of
    /// nothing. A class is no subclass of itself.
    pub proof fn lemma_subclass_of_nothing(self, class: Seq<u8>)
        requires
            self.data().parents@.len() == 0,
        ensures
            !self.spec_subclass_of(class),
    {
    }

    /// The reference that [`Record::from_raw`] creates.
    pub closed spec fn spec_from_raw(keeper: &'a RecordKeeper, raw: usize) -> Self {
        Record { raw, keeper }
    }

    /// Says what [`Record::spec_from_raw`] holds.
    pub broadcast proof fn lemma_spec_from_raw(keeper: &'a RecordKeeper, raw: usize)
        ensures
            (#[trigger] Self::spec_from_raw(keeper, raw)).raw() == raw,
            Self::spec_from_raw(keeper, raw).keeper() == keeper,
    {
    }

    /// Creates a reference to the record with the given number.
    pub fn from_raw(keeper: &'a RecordKeeper, raw: usize) -> (record: Record<'a>)
        requires
            raw < keeper@.records().len(),
        ensures
            record == Self::spec_from_raw(keeper, raw),
            record.raw() == raw,
            record.keeper() == keeper,
    {
        Record { raw, keeper }
    }

    /// Returns the number of the record in the graph.
    pub fn to_raw(self) -> (raw: usize)
        ensures
            raw == self.raw(),
    {
        self.raw
    }

    /// Returns the record as the graph holds it.
    fn get_data(self) -> (data: &'a RawRecord)
        ensures
            *data == self.data(),
            self.wf(),
            self.keeper()@.wf(),
    {
        proof {
            use_type_invariant(&self);
        }
        self.keeper.raw().record(self.raw)
    }

    /// Returns the fields of the record as the graph holds them.
    fn get_fields(self) -> (fields: &'a Vec<RawRecordVal>)
        ensures
            fields@ == self.fields(),
            self.wf(),
            self.keeper()@.wf(),
            values_wf(self.fields(), self.keeper()@.inits()),
    {
        proof {
            use_type_invariant(&self);
        }
        let graph = self.keeper.raw();
        proof {
            assert(values_wf((#[trigger] graph.values()[self.raw() as int])@, graph.inits()));
        }
        graph.record_values(self.raw)
    }

    /// Returns the name of the record.
    ///
    /// # Errors
    ///
    /// Returns an error if the name is not a valid UTF-8 string.
    pub fn name(self) -> (res: Result<&'a str, Error>)
        ensures
            valid_utf8(self.data().name@) ==> res is Ok && res->Ok_0.spec_bytes()
                == self.data().name@,
            !valid_utf8(self.data().name@) ==> res is Err && res->Err_0 == SourceError::spec_new(
                self.data().loc,
                TableGenError::InvalidUtf8Str(utf8_error(self.data().name@)),
            ),
    {
        let data = self.get_data();
        match StringRef::from_raw(data.name.as_slice()).as_str() {
            Ok(name) => Ok(name),
            Err(e) => Err(SourceError::new(data.loc, TableGenError::InvalidUtf8Str(e))),
        }
    }

    /// Returns a [`RecordValue`] for the field with the given name.
    ///
    /// The name has to match exactly. If several fields have the name, the
    /// one that was declared first is returned. If none has, the error says
    /// so; it is located at the record.
    pub fn value(self, name: &str) -> (res: Result<RecordValue<'a>, Error>)
        ensures
            self.field_index(name.spec_bytes()) matches Some(k) ==> res is Ok && res->Ok_0
                == self.field(k),
            self.field_index(name.spec_bytes()) is None ==> res is Err && missing_value(
                res->Err_0,
                self.data().loc,
                name@,
            ),
    {
        let fields = self.get_fields();
        let graph = self.keeper.raw();
        let mut k: usize = 0;
        while k < fields.len()
            invariant
                k <= fields.len(),
                fields@ == self.fields(),
                *graph == self.keeper()@,
                graph.wf(),
                self.wf(),
                values_wf(fields@, graph.inits()),
                first_field(fields@.take(k as int), graph.inits(), name.spec_bytes()) is None,
            decreases fields.len() - k,
        {
            proof {
                assert(fields@.take(k + 1).drop_last() == fields@.take(k as int));
                assert(fields@.take(k + 1).last() == fields@[k as int]);
            }
            if let RawInit::String(bytes) = graph.init(fields[k].name) {
                if bytes_eq(bytes.as_slice(), name.as_bytes()) {
                    proof {
                        lemma_first_field_prefix(fields@, graph.inits(), name.spec_bytes(), k + 1);
                    }
                    return Ok(RecordValue::from_raw(self.keeper, self.raw, k));
                }
            }
            k = k + 1;
        }
        proof {
            assert(fields@.take(k as int) == fields@);
        }
        let missing = TableGenError::MissingValue(String::from_str(name));
        let e = SourceError::new(self.get_data().loc, missing);
        proof {
            SourceError::<TableGenError>::lemma_spec_new(self.data().loc, missing);
        }
        Err(e)
    }

    /// Returns true if the record is anonymous.
    pub fn anonymous(self) -> (anonymous: bool)
        ensures
            anonymous == self.data().anonymous,
    {
        self.get_data().anonymous
    }

    /// Returns true if the record is a subclass of the class with the given
    /// name.
    ///
    /// The name has to match exactly. A record is a subclass of the classes
    /// that it was declared to derive from, and of the classes that these
    /// are subclasses of.
    pub fn subclass_of(self, class: &str) -> (found: bool)
        ensures
            found == self.spec_subclass_of(class.spec_bytes()),
    {
        let data = self.get_data();
        let graph = self.keeper.raw();
        let superclasses = &data.superclasses;
        proof {
            assert(record_wf(graph.records(), self.raw() as int));
        }
        let mut k: usize = 0;
        while k < superclasses.len()
            invariant
                k <= superclasses.len(),
                *graph == self.keeper()@,
                graph.wf(),
                self.wf(),
                superclasses@ == self.data().superclasses@,
                record_wf(graph.records(), self.raw() as int),
                forall|j: int|
                    0 <= j < k ==> graph.records()[(#[trigger] superclasses@[j]) as int].name@
                        != class.spec_bytes(),
            decreases superclasses.len() - k,
        {
            let c = superclasses[k];
            proof {
                assert(superclasses@.contains(c));
                assert(derives(graph.records(), self.raw() as int, c as int));
                crate::raw::lemma_derives_class(graph.records(), self.raw() as int, c as int);
            }
            if bytes_eq(graph.record(c).name.as_slice(), class.as_bytes()) {
                return true;
            }
            k = k + 1;
        }
        proof {
            assert forall|c: int| #[trigger]
                derives(graph.records(), self.raw() as int, c) implies graph.records()[c].name@
                != class.spec_bytes() by {
                crate::raw::lemma_derives_class(graph.records(), self.raw() as int, c);
                assert(superclasses@.contains(c as usize));
                let j = choose|j: int|
                    0 <= j < superclasses@.len() && superclasses@[j] == c as usize;
                assert(graph.records()[superclasses@[j] as int].name@ != class.spec_bytes());
            }
        }
        false
    }

    /// Returns an iterator over the fields of the record.
    ///
    /// The iterator yields [`RecordValue`] structs, in the order in which
    /// the fields were declared.
    pub fn values(self) -> (iter: RecordValueIter<'a>)
        ensures
            iter.record() == self,
            iter.current() == 0,
    {
        proof {
            use_type_invariant(&self);
        }
        RecordValueIter { record: self, current: 0 }
    }

    /// Returns the boolean value of the field with the given name if this
    /// field is of type [`BitInit`](crate::init::BitInit).
    ///
    /// Fails if the record has no field of that name, or if the field is of
    /// another type. The error of a missing field is located at the record,
    /// any other at the field.
    pub fn bit_value(self, name: &str) -> (res: Result<bool, Error>)
        ensures
            self.field_index(name.spec_bytes()) matches Some(k) ==> res == self.field(
                k,
            ).init.spec_to_bool(self.field(k).loc),
            self.field_index(name.spec_bytes()) is None ==> res is Err && missing_value(
                res->Err_0,
                self.data().loc,
                name@,
            ),
    {
        match self.value(name) {
            Ok(value) => <bool>::try_from(value),
            Err(e) => Err(e),
        }
    }

    /// Returns the field with the given name converted to a [`Vec<bool>`]
    /// if this field is of type [`BitsInit`](crate::init::BitsInit).
    ///
    /// Fails if the record has no field of that name, or if the field is of
    /// another type. The error of a missing field is located at the record,
    /// any other at the field.
    pub fn bits_value(self, name: &str) -> (res: Result<Vec<bool>, Error>)
        ensures
            self.field_index(name.spec_bytes()) matches Some(k) ==> self.field(
                k,
            ).init.yields_bools(self.field(k).loc, res),
            self.field_index(name.spec_bytes()) is None ==> res is Err && missing_value(
                res->Err_0,
                self.data().loc,
                name@,
            ),
    {
        match self.value(name) {
            Ok(value) => <Vec<bool>>::try_from(value),
            Err(e) => Err(e),
        }
    }

    /// Returns the integer value of the field with the given name if this
    /// field is of type [`IntInit`](crate::init::IntInit).
    ///
    /// Fails if the record has no field of that name, or if the field is of
    /// another type. The error of a missing field is located at the record,
    /// any other at the field.
    pub fn int_value(self, name: &str) -> (res: Result<i64, Error>)
        ensures
            self.field_index(name.spec_bytes()) matches Some(k) ==> res == self.field(
                k,
            ).init.spec_to_int(self.field(k).loc),
            self.field_index(name.spec_bytes()) is None ==> res is Err && missing_value(
                res->Err_0,
                self.data().loc,
                name@,
            ),
    {
        match self.value(name) {
            Ok(value) => <i64>::try_from(value),
            Err(e) => Err(e),
        }
    }

    /// Returns the field with the given name converted to a [`String`]
    /// if this field is of type [`StringInit`](crate::init::StringInit).
    ///
    /// Note that this copies the string into a new string.
    ///
    /// Fails if the record has no field of that name, or if the field is of
    /// another type. The error of a missing field is located at the record,
    /// any other at the field.
    pub fn code_value(self, name: &str) -> (res: Result<String, Error>)
        ensures
            self.field_index(name.spec_bytes()) matches Some(k) ==> self.field(
                k,
            ).init.yields_string(self.field(k).loc, res),
            self.field_index(name.spec_bytes()) is None ==> res is Err && missing_value(
                res->Err_0,
                self.data().loc,
                name@,
            ),
    {
        match self.value(name) {
            Ok(value) => <String>::try_from(value),
            Err(e) => Err(e),
        }
    }

    /// Returns the field with the given name converted to a [`&str`]
    /// if this field is of type [`StringInit`](crate::init::StringInit).
    ///
    /// Fails if the record has no field of that name, or if the field is of
    /// another type. The error of a missing field is located at the record,
    /// any other at the field.
    pub fn code_str_value(self, name: &str) -> (res: Result<&'a str, Error>)
        ensures
            self.field_index(name.spec_bytes()) matches Some(k) ==> self.field(
                k,
            ).init.yields_str(self.field(k).loc, res),
            self.field_index(name.spec_bytes()) is None ==> res is Err && missing_value(
                res->Err_0,
                self.data().loc,
                name@,
            ),
    {
        match self.value(name) {
            Ok(value) => <&'a str>::try_from(value),
            Err(e) => Err(e),
        }
    }

    /// Returns the field with the given name converted to a [`String`]
    /// if this field is of type [`StringInit`](crate::init::StringInit).
    ///
    /// Note that this copies the string into a new string.
    ///
    /// Fails if the record has no field of that name, or if the field is of
    /// another type. The error of a missing field is located at the record,
    /// any other at the field.
    pub fn string_value(self, name: &str) -> (res: Result<String, Error>)
        ensures
            self.field_index(name.spec_bytes()) matches Some(k) ==> self.field(
                k,
            ).init.yields_string(self.field(k).loc, res),
            self.field_index(name.spec_bytes()) is None ==> res is Err && missing_value(
                res->Err_0,
                self.data().loc,
                name@,
            ),
    {
        match self.value(name) {
            Ok(value) => <String>::try_from(value),
            Err(e) => Err(e),
        }
    }

    /// Returns the field with the given name converted to a [`&str`]
    /// if this field is of type [`StringInit`](crate::init::StringInit).
    ///
    /// Fails if the record has no field of that name, or if the field is of
    /// another type. The error of a missing field is located at the record,
    /// any other at the field.
    pub fn str_value(self, name: &str) -> (res: Result<&'a str, Error>)
        ensures
            self.field_index(name.spec_bytes()) matches Some(k) ==> self.field(
                k,
            ).init.yields_str(self.field(k).loc, res),
            self.field_index(name.spec_bytes()) is None ==> res is Err && missing_value(
                res->Err_0,
                self.data().loc,
                name@,
            ),
    {
        match self.value(name) {
            Ok(value) => <&'a str>::try_from(value),
            Err(e) => Err(e),
        }
    }

    /// Returns the field with the given name converted to a [`Record`]
    /// if this field is of type [`DefInit`](crate::init::DefInit).
    ///
    /// Fails if the record has no field of that name, or if the field is of
    /// another type. The error of a missing field is located at the record,
    /// any other at the field.
    pub fn def_value(self, name: &str) -> (res: Result<Record<'a>, Error>)
        ensures
            self.field_index(name.spec_bytes()) matches Some(k) ==> res == self.field(
                k,
            ).init.spec_to_record(self.field(k).loc),
            self.field_index(name.spec_bytes()) is None ==> res is Err && missing_value(
                res->Err_0,
                self.data().loc,
                name@,
            ),
    {
        match self.value(name) {
            Ok(value) => <Record<'a>>::try_from(value),
            Err(e) => Err(e),
        }
    }

    /// Returns the field with the given name converted to a [`ListInit`]
    /// if this field is of type [`ListInit`].
    ///
    /// Fails if the record has no field of that name, or if the field is of
    /// another type. The error of a missing field is located at the record,
    /// any other at the field.
    pub fn list_value(self, name: &str) -> (res: Result<ListInit<'a>, Error>)
        ensures
            self.field_index(name.spec_bytes()) matches Some(k) ==> res == self.field(
                k,
            ).init.spec_to_list(self.field(k).loc),
            self.field_index(name.spec_bytes()) is None ==> res is Err && missing_value(
                res->Err_0,
                self.data().loc,
                name@,
            ),
    {
        match self.value(name) {
            Ok(value) => <ListInit<'a>>::try_from(value),
            Err(e) => Err(e),
        }
    }

    /// Returns the field with the given name converted to a [`DagInit`]
    /// if this field is of type [`DagInit`].
    ///
    /// Fails if the record has no field of that name, or if the field is of
    /// another type. The error of a missing field is located at the record,
    /// any other at the field.
    pub fn dag_value(self, name: &str) -> (res: Result<DagInit<'a>, Error>)
        ensures
            self.field_index(name.spec_bytes()) matches Some(k) ==> res == self.field(
                k,
            ).init.spec_to_dag(self.field(k).loc),
            self.field_index(name.spec_bytes()) is None ==> res is Err && missing_value(
                res->Err_0,
                self.data().loc,
                name@,
            ),
    {
        match self.value(name) {
            Ok(value) => <DagInit<'a>>::try_from(value),
            Err(e) => Err(e),
        }
    }
}

impl<'a> SourceLoc for Record<'a> {
    open spec fn spec_source_location(&self) -> SourceLocation {
        self.data().loc
    }

    fn source_location(self) -> (location: SourceLocation) {
        self.get_data().loc
    }
}

/// Struct that represents a field of a [`Record`].
///
/// Can be converted into a Rust type using the [`TryInto`] trait.
#[derive(Clone, Copy)]
pub struct RecordValue<'a> {
    /// Where the field was declared.
    pub loc: SourceLocation,
    /// The name of the field.
    pub name: StringInit<'a>,
    /// The value of the field.
    pub init: TypedInit<'a>,
}

impl<'a> RecordValue<'a> {
    /// The field that [`RecordValue::from_raw`] creates.
    pub open spec fn spec_from_raw(keeper: &'a RecordKeeper, record: usize, index: usize) -> Self {
        let field = keeper@.values()[record as int]@[index as int];
        RecordValue {
            loc: field.loc,
            name: StringInit::spec_from_raw(keeper, field.name),
            init: TypedInit::spec_from_raw(keeper, field.value),
        }
    }

    /// A field that is asked for as an integer and holds a value of another
    /// type gives a conversion error. The error names the type of the value
    /// and the type that was asked for, and it is located at the field.
    pub proof fn lemma_int_mismatch(self)
        requires
            !(self.init is Int),
        ensures
            ({
                let res = self.init.spec_to_int(self.loc);
                &&& res is Err
                &&& res->Err_0.spec_error() == TableGenError::InitConversion {
                    from: self.init.spec_variant_name(),
                    to: "i64",
                    cause: None,
                }
                &&& res->Err_0.spec_location() == self.loc
                &&& res->Err_0.spec_message() is None
            }),
    {
        broadcast use {SourceError::lemma_spec_new, SourceError::lemma_spec_set_location};

    }

    /// Creates a reference to the field at position `index` of the record
    /// with number `record`.
    pub fn from_raw(keeper: &'a RecordKeeper, record: usize, index: usize) -> (value: Self)
        requires
            record < keeper@.values().len(),
            index < keeper@.values()[record as int]@.len(),
        ensures
            value == Self::spec_from_raw(keeper, record, index),
    {
        let graph = keeper.raw();
        proof {
            assert(values_wf((#[trigger] graph.values()[record as int])@, graph.inits()));
        }
        let field = &graph.record_values(record)[index];
        RecordValue {
            loc: field.loc,
            name: StringInit::from_raw(keeper, field.name),
            init: TypedInit::from_raw(keeper, field.value),
        }
    }
}

impl<'a> SourceLoc for RecordValue<'a> {
    open spec fn spec_source_location(&self) -> SourceLocation {
        self.loc
    }

    fn source_location(self) -> (location: SourceLocation) {
        self.loc
    }
}

impl<'a> From<RecordValue<'a>> for TypedInit<'a> {
    fn from(value: RecordValue<'a>) -> (init: Self) {
        value.init
    }
}

impl<'a> FromSpecImpl<RecordValue<'a>> for TypedInit<'a> {
    open spec fn obeys_from_spec() -> bool {
        true
    }

    open spec fn from_spec(value: RecordValue<'a>) -> Self {
        value.init
    }
}

impl<'a> TryFrom<RecordValue<'a>> for bool {
    type Error = Error;

    fn try_from(value: RecordValue<'a>) -> (res: Result<Self, Error>) {
        broadcast use {SourceError::lemma_spec_new, SourceError::lemma_spec_set_location};

        match Self::try_from(value.init) {
            Ok(converted) => Ok(converted),
            Err(e) => Err(e.set_location(value)),
        }
    }
}

impl<'a> vstd::std_specs::convert::TryFromSpecImpl<RecordValue<'a>> for bool {
    open spec fn obeys_try_from_spec() -> bool {
        true
    }

    open spec fn try_from_spec(value: RecordValue<'a>) -> Result<Self, Error> {
        value.init.spec_to_bool(value.loc)
    }
}

impl<'a> TryFrom<RecordValue<'a>> for i64 {
    type Error = Error;

    fn try_from(value: RecordValue<'a>) -> (res: Result<Self, Error>) {
        broadcast use {SourceError::lemma_spec_new, SourceError::lemma_spec_set_location};

        match Self::try_from(value.init) {
            Ok(converted) => Ok(converted),
            Err(e) => Err(e.set_location(value)),
        }
    }
}

impl<'a> vstd::std_specs::convert::TryFromSpecImpl<RecordValue<'a>> for i64 {
    open spec fn obeys_try_from_spec() -> bool {
        true
    }

    open spec fn try_from_spec(value: RecordValue<'a>) -> Result<Self, Error> {
        value.init.spec_to_int(value.loc)
    }
}

impl<'a> TryFrom<RecordValue<'a>> for ListInit<'a> {
    type Error = Error;

    fn try_from(value: RecordValue<'a>) -> (res: Result<Self, Error>) {
        broadcast use {SourceError::lemma_spec_new, SourceError::lemma_spec_set_location};

        match Self::try_from(value.init) {
            Ok(converted) => Ok(converted),
            Err(e) => Err(e.set_location(value)),
        }
    }
}

impl<'a> vstd::std_specs::convert::TryFromSpecImpl<RecordValue<'a>> for ListInit<'a> {
    open spec fn obeys_try_from_spec() -> bool {
        true
    }

    open spec fn try_from_spec(value: RecordValue<'a>) -> Result<Self, Error> {
        value.init.spec_to_list(value.loc)
    }
}

impl<'a> TryFrom<RecordValue<'a>> for DagInit<'a> {
    type Error = Error;

    fn try_from(value: RecordValue<'a>) -> (res: Result<Self, Error>) {
        broadcast use {SourceError::lemma_spec_new, SourceError::lemma_spec_set_location};

        match Self::try_from(value.init) {
            Ok(converted) => Ok(converted),
            Err(e) => Err(e.set_location(value)),
        }
    }
}

impl<'a> vstd::std_specs::convert::TryFromSpecImpl<RecordValue<'a>> for DagInit<'a> {
    open spec fn obeys_try_from_spec() -> bool {
        true
    }

    open spec fn try_from_spec(value: RecordValue<'a>) -> Result<Self, Error> {
        value.init.spec_to_dag(value.loc)
    }
}

impl<'a> TryFrom<RecordValue<'a>> for Record<'a> {
    type Error = Error;

    fn try_from(value: RecordValue<'a>) -> (res: Result<Self, Error>) {
        broadcast use {SourceError::lemma_spec_new, SourceError::lemma_spec_set_location};

        match Self::try_from(value.init) {
            Ok(converted) => Ok(converted),
            Err(e) => Err(e.set_location(value)),
        }
    }
}

impl<'a> vstd::std_specs::convert::TryFromSpecImpl<RecordValue<'a>> for Record<'a> {
    open spec fn obeys_try_from_spec() -> bool {
        true
    }

    open spec fn try_from_spec(value: RecordValue<'a>) -> Result<Self, Error> {
        value.init.spec_to_record(value.loc)
    }
}

impl<'a> TryFrom<RecordValue<'a>> for Vec<bool> {
    type Error = Error;

    fn try_from(value: RecordValue<'a>) -> (res: Result<Self, Error>)
        ensures
            value.init.yields_bools(value.loc, res),
    {
        broadcast use {SourceError::lemma_spec_new, SourceError::lemma_spec_set_location};

        match Self::try_from(value.init) {
            Ok(converted) => Ok(converted),
            Err(e) => Err(e.set_location(value)),
        }
    }
}

/// No value of the target type can be written down in ghost code:
/// what the conversion gives is stated on `try_from` itself.
impl<'a> vstd::std_specs::convert::TryFromSpecImpl<RecordValue<'a>> for Vec<bool> {
    open spec fn obeys_try_from_spec() -> bool {
        false
    }

    open spec fn try_from_spec(value: RecordValue<'a>) -> Result<Self, Error> {
        arbitrary()
    }
}

impl<'a> TryFrom<RecordValue<'a>> for Vec<BitInit<'a>> {
    type Error = Error;

    fn try_from(value: RecordValue<'a>) -> (res: Result<Self, Error>)
        ensures
            value.init.yields_bit_inits(value.loc, res),
    {
        broadcast use {SourceError::lemma_spec_new, SourceError::lemma_spec_set_location};

        match Self::try_from(value.init) {
            Ok(converted) => Ok(converted),
            Err(e) => Err(e.set_location(value)),
        }
    }
}

/// No value of the target type can be written down in ghost code:
/// what the conversion gives is stated on `try_from` itself.
impl<'a> vstd::std_specs::convert::TryFromSpecImpl<RecordValue<'a>> for Vec<BitInit<'a>> {
    open spec fn obeys_try_from_spec() -> bool {
        false
    }

    open spec fn try_from_spec(value: RecordValue<'a>) -> Result<Self, Error> {
        arbitrary()
    }
}

impl<'a> TryFrom<RecordValue<'a>> for String {
    type Error = Error;

    fn try_from(value: RecordValue<'a>) -> (res: Result<Self, Error>)
        ensures
            value.init.yields_string(value.loc, res),
    {
        broadcast use {SourceError::lemma_spec_new, SourceError::lemma_spec_set_location};

        match Self::try_from(value.init) {
            Ok(converted) => Ok(converted),
            Err(e) => Err(e.set_location(value)),
        }
    }
}

/// No value of the target type can be written down in ghost code:
/// what the conversion gives is stated on `try_from` itself.
impl<'a> vstd::std_specs::convert::TryFromSpecImpl<RecordValue<'a>> for String {
    open spec fn obeys_try_from_spec() -> bool {
        false
    }

    open spec fn try_from_spec(value: RecordValue<'a>) -> Result<Self, Error> {
        arbitrary()
    }
}

impl<'a> TryFrom<RecordValue<'a>> for &'a str {
    type Error = Error;

    fn try_from(value: RecordValue<'a>) -> (res: Result<Self, Error>)
        ensures
            value.init.yields_str(value.loc, res),
    {
        broadcast use {SourceError::lemma_spec_new, SourceError::lemma_spec_set_location};

        match Self::try_from(value.init) {
            Ok(converted) => Ok(converted),
            Err(e) => Err(e.set_location(value)),
        }
    }
}

/// No value of the target type can be written down in ghost code:
/// what the conversion gives is stated on `try_from` itself.
impl<'a> vstd::std_specs::convert::TryFromSpecImpl<RecordValue<'a>> for &'a str {
    open spec fn obeys_try_from_spec() -> bool {
        false
    }

    open spec fn try_from_spec(value: RecordValue<'a>) -> Result<Self, Error> {
        arbitrary()
    }
}

/// An iterator over the fields of a record.
#[derive(Clone, Copy)]
pub struct RecordValueIter<'a> {
    record: Record<'a>,
    current: usize,
}

impl<'a> RecordValueIter<'a> {
    /// The record whose fields the iterator yields.
    pub closed spec fn record(&self) -> Record<'a> {
        self.record
    }

    /// The position of the field that comes next.
    pub closed spec fn current(&self) -> usize {
        self.current
    }

    /// Returns the next field of the record.
    pub fn next(&mut self) -> (value: Option<RecordValue<'a>>)
        ensures
            final(self).record() == old(self).record(),
            old(self).current() < old(self).record().fields().len() ==> final(self).current()
                == old(self).current() + 1 && value == Some(
                old(self).record().field(old(self).current() as int),
            ),
            old(self).current() >= old(self).record().fields().len() ==> final(self).current()
                == old(self).current() && value is None,
    {
        let fields = self.record.get_fields();
        if self.current < fields.len() {
            let value = RecordValue::from_raw(self.record.keeper, self.record.raw, self.current);
            self.current = self.current + 1;
            Some(value)
        } else {
            None
        }
    }
}

} // verus!
