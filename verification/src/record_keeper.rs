//! The owner of all records of a TableGen source.

use crate::raw::{
    first_named, kind_ids, lemma_first_named, lemma_kind_ids, subclass_named, RecordGraph,
};
use crate::record::Record;
use crate::string_ref::StringRef;
use crate::TableGenParser;
use core::marker::PhantomData;
use core::str::Utf8Error;
use vstd::prelude::*;
use vstd::string::StringSliceAdditionalSpecFns;
use vstd::utf8::valid_utf8;

verus! {

/// Struct that holds all records from a TableGen file.
pub struct RecordKeeper {
    raw: RecordGraph,
    parser: TableGenParser,
}

impl View for RecordKeeper {
    type V = RecordGraph;

    closed spec fn view(&self) -> RecordGraph {
        self.raw
    }
}

impl RecordKeeper {
    /// The parser that the records came from.
    pub closed spec fn spec_parser(&self) -> TableGenParser {
        self.parser
    }

    /// The record with number `r`.
    pub open spec fn record(&self, r: int) -> Record<'_> {
        Record::spec_from_raw(self, r as usize)
    }

    /// The numbers of the definitions that derive from a class with the
    /// given name, in the order of their declaration.
    pub open spec fn derived_ids(&self, class: Seq<u8>) -> Seq<usize> {
        kind_ids(self@.records(), false).filter(
            |d: usize| subclass_named(self@.records(), d as int, class),
        )
    }

    /// The definitions that [`RecordKeeper::all_derived_definitions`] yields
    /// for a name are the definitions that derive from a class of that
    /// name: each of them and no other record, each once, in the order of
    /// their declaration.
    pub proof fn lemma_derived_ids(&self, class: Seq<u8>)
        requires
            self@.wf(),
        ensures
            forall|d: usize| #[trigger]
                self.derived_ids(class).contains(d) <==> d < self@.records().len()
                    && !self@.records()[d as int].class && subclass_named(
                    self@.records(),
                    d as int,
                    class,
                ),
            forall|j: int, k: int|
                0 <= j < k < self.derived_ids(class).len() ==> self.derived_ids(class)[j]
                    < self.derived_ids(class)[k],
    {
        let records = self@.records();
        let defs = kind_ids(records, false);
        let keep = |d: usize| subclass_named(records, d as int, class);
        let kept = defs.filter(keep);
        lemma_kind_ids(records, false);
        broadcast use vstd::seq_lib::group_filter_ensures;

        assert forall|d: usize| #[trigger]
            kept.contains(d) <==> d < records.len() && !records[d as int].class && subclass_named(
                records,
                d as int,
                class,
            ) by {
            if kept.contains(d) {
                defs.lemma_filter_contains_rev(keep, d);
                let k = choose|k: int| 0 <= k < kept.len() && kept[k] == d;
                assert(keep(kept[k]));
                let i = choose|i: int| 0 <= i < defs.len() && defs[i] == d;
                assert(defs[i] < records.len());
            }
            if d < records.len() && !records[d as int].class && keep(d) {
                assert(!records[d as int].class);
                assert(defs.contains(d));
                let i = choose|i: int| 0 <= i < defs.len() && defs[i] == d;
                assert(kept.contains(defs[i]));
            }
        }
        lemma_filter_rising(defs, keep);
    }

    /// Creates a record keeper that owns the given graph.
    pub fn from_raw(raw: RecordGraph, parser: TableGenParser) -> (keeper: RecordKeeper)
        ensures
            keeper@ == raw,
            keeper.spec_parser() == parser,
    {
        RecordKeeper { raw, parser }
    }

    /// Returns the graph that the record keeper owns.
    pub fn raw(&self) -> (raw: &RecordGraph)
        ensures
            *raw == self@,
            raw.wf(),
    {
        proof {
            use_type_invariant(&self.raw);
        }
        &self.raw
    }

    /// Returns the parser that the records came from.
    pub fn parser(&self) -> (parser: &TableGenParser)
        ensures
            *parser == self.spec_parser(),
    {
        &self.parser
    }

    /// Returns an iterator over all classes.
    ///
    /// The iterator yields tuples `(Result<&str, Utf8Error>, Record)`, in
    /// the order in which the classes were declared.
    pub fn classes(&self) -> (iter: NamedRecordIter<'_, IsClass>)
        ensures
            iter.keeper() == self,
            iter.index() == 0,
    {
        NamedRecordIter { keeper: self, index: 0, _kind: PhantomData }
    }

    /// Returns an iterator over all definitions.
    ///
    /// The iterator yields tuples `(Result<&str, Utf8Error>, Record)`, in
    /// the order in which the definitions were declared.
    pub fn defs(&self) -> (iter: NamedRecordIter<'_, IsDef>)
        ensures
            iter.keeper() == self,
            iter.index() == 0,
    {
        NamedRecordIter { keeper: self, index: 0, _kind: PhantomData }
    }

    /// Returns the class with the given name.
    ///
    /// The name has to match exactly. The class is looked up in a table: no
    /// record is visited.
    pub fn class(&self, name: &str) -> (class: Option<Record<'_>>)
        ensures
            first_named(self@.records(), true, name.spec_bytes()) matches Some(r) ==> class
                == Some(self.record(r)),
            first_named(self@.records(), true, name.spec_bytes()) is None ==> class is None,
            class matches Some(found) ==> found.keeper() == self && found.data().class
                && found.data().name@ == name.spec_bytes(),
            class is None ==> forall|r: int|
                0 <= r < self@.records().len() ==> !((#[trigger] self@.records()[r]).class
                    && self@.records()[r].name@ == name.spec_bytes()),
    {
        proof {
            lemma_first_named(self@.records(), true, name.spec_bytes());
            broadcast use Record::lemma_spec_from_raw;
        }
        match self.raw().find(true, name) {
            Some(r) => Some(Record::from_raw(self, r)),
            None => None,
        }
    }

    /// Returns the definition with the given name.
    ///
    /// The name has to match exactly. The definition is looked up in a
    /// table: no record is visited.
    pub fn def(&self, name: &str) -> (def: Option<Record<'_>>)
        ensures
            first_named(self@.records(), false, name.spec_bytes()) matches Some(r) ==> def == Some(
                self.record(r),
            ),
            first_named(self@.records(), false, name.spec_bytes()) is None ==> def is None,
            def matches Some(found) ==> found.keeper() == self && !found.data().class
                && found.data().name@ == name.spec_bytes(),
            def is None ==> forall|r: int|
                0 <= r < self@.records().len() ==> !(!(#[trigger] self@.records()[r]).class
                    && self@.records()[r].name@ == name.spec_bytes()),
    {
        proof {
            lemma_first_named(self@.records(), false, name.spec_bytes());
            broadcast use Record::lemma_spec_from_raw;
        }
        match self.raw().find(false, name) {
            Some(r) => Some(Record::from_raw(self, r)),
            None => None,
        }
    }

    /// Returns an iterator over all definitions that derive from the class
    /// with the given name, be it directly or through other classes.
    ///
    /// The definitions come in the order in which they were declared.
    pub fn all_derived_definitions(&self, name: &str) -> (iter: RecordIter<'_>)
        ensures
            iter.keeper() == self,
            iter.ids() == self.derived_ids(name.spec_bytes()),
            iter.index() == 0,
    {
        let graph = self.raw();
        let defs = graph.ids(false);
        let ghost keep = |d: usize| subclass_named(self@.records(), d as int, name.spec_bytes());
        let mut ids: Vec<usize> = Vec::new();
        let mut i: usize = 0;
        proof {
            lemma_kind_ids(graph.records(), false);
            assert(defs@.take(0) == Seq::<usize>::empty());
        }
        while i < defs.len()
            invariant
                i <= defs.len(),
                *graph == self@,
                graph.wf(),
                defs@ == kind_ids(self@.records(), false),
                keep == |d: usize| subclass_named(self@.records(), d as int, name.spec_bytes()),
                forall|k: int|
                    0 <= k < defs@.len() ==> (#[trigger] defs@[k]) < self@.records().len(),
                ids@ == defs@.take(i as int).filter(keep),
                forall|k: int| 0 <= k < ids@.len() ==> (#[trigger] ids@[k]) < self@.records().len(),
            decreases defs.len() - i,
        {
            let def = Record::from_raw(self, defs[i]);
            let derived = def.subclass_of(name);
            proof {
                Record::lemma_spec_from_raw(self, defs@[i as int]);
                assert(derived == keep(defs@[i as int]));
                let seen = defs@.take(i as int);
                assert(defs@.take(i + 1) == seen.push(defs@[i as int]));
                seen.lemma_filter_push(defs@[i as int], keep);
            }
            if derived {
                ids.push(defs[i]);
            }
            i = i + 1;
        }
        proof {
            assert(defs@.take(i as int) == defs@);
        }
        RecordIter { keeper: self, ids, index: 0 }
    }
}

/// What a filter keeps of a rising sequence of numbers is rising too.
proof fn lemma_filter_rising(ids: Seq<usize>, keep: spec_fn(usize) -> bool)
    requires
        forall|j: int, k: int| 0 <= j < k < ids.len() ==> ids[j] < ids[k],
    ensures
        forall|j: int, k: int|
            0 <= j < k < ids.filter(keep).len() ==> ids.filter(keep)[j] < ids.filter(keep)[k],
        forall|k: int|
            0 <= k < ids.filter(keep).len() ==> ids.contains(#[trigger] ids.filter(keep)[k]),
    decreases ids.len(),
{
    let kept = ids.filter(keep);
    if ids.len() > 0 {
        let rest = ids.drop_last();
        let before = rest.filter(keep);
        lemma_filter_rising(rest, keep);
        assert(rest.push(ids.last()) == ids);
        rest.lemma_filter_push(ids.last(), keep);
        assert forall|k: int| 0 <= k < kept.len() implies ids.contains(#[trigger] kept[k]) by {
            if k < before.len() {
                assert(kept[k] == before[k]);
                assert(rest.contains(before[k]));
                let i = choose|i: int| 0 <= i < rest.len() && rest[i] == before[k];
                assert(ids[i] == kept[k]);
            } else {
                assert(ids[ids.len() - 1] == kept[k]);
            }
        }
        assert forall|j: int, k: int| 0 <= j < k < kept.len() implies kept[j] < kept[k] by {
            assert(kept[j] == before[j]);
            if k < before.len() {
                assert(kept[k] == before[k]);
            } else {
                assert(rest.contains(before[j]));
                let i = choose|i: int| 0 <= i < rest.len() && rest[i] == before[j];
                assert(ids[i] < ids[ids.len() - 1]);
            }
        }
    } else {
        broadcast use vstd::seq_lib::group_filter_ensures;

    }
}

/// Marks an iterator over classes.
#[derive(Debug, Clone, Copy)]
pub struct IsClass;

/// Marks an iterator over definitions.
#[derive(Debug, Clone, Copy)]
pub struct IsDef;

/// Tells which kind of record an iterator yields.
pub trait NextRecord {
    /// Whether the records are classes.
    spec fn spec_class() -> bool;

    /// Says whether the records are classes.
    fn class() -> (class: bool)
        ensures
            class == Self::spec_class(),
    ;
}

impl NextRecord for IsClass {
    open spec fn spec_class() -> bool {
        true
    }

    fn class() -> (class: bool) {
        true
    }
}

impl NextRecord for IsDef {
    open spec fn spec_class() -> bool {
        false
    }

    fn class() -> (class: bool) {
        false
    }
}

/// An iterator over the classes or over the definitions of a record keeper,
/// each with its name.
pub struct NamedRecordIter<'a, T> {
    keeper: &'a RecordKeeper,
    index: usize,
    _kind: PhantomData<T>,
}

impl<'a, T> NamedRecordIter<'a, T> {
    /// The record keeper whose records the iterator yields.
    pub closed spec fn keeper(&self) -> &'a RecordKeeper {
        self.keeper
    }

    /// How many records the iterator has yielded.
    pub closed spec fn index(&self) -> usize {
        self.index
    }
}

impl<'a, T: NextRecord> NamedRecordIter<'a, T> {
    /// The numbers of the records that the iterator goes through, in the
    /// order of their declaration.
    pub open spec fn ids(&self) -> Seq<usize> {
        kind_ids(self.keeper()@.records(), T::spec_class())
    }

    /// Returns the next record with its name.
    ///
    /// A name that is not valid UTF-8 comes as an error in place of the
    /// name; the iterator goes on to the records after it all the same.
    pub fn next(&mut self) -> (item: Option<(Result<&'a str, Utf8Error>, Record<'a>)>)
        ensures
            final(self).keeper() == old(self).keeper(),
            old(self).index() >= old(self).ids().len() ==> item is None && final(self).index()
                == old(self).index(),
            old(self).index() < old(self).ids().len() ==> final(self).index() == old(self).index()
                + 1 && item is Some && ({
                let record = old(self).keeper().record(
                    old(self).ids()[old(self).index() as int] as int,
                );
                let name = record.data().name@;
                &&& item->Some_0.1 == record
                &&& valid_utf8(name) ==> item->Some_0.0 is Ok && item->Some_0.0->Ok_0.spec_bytes()
                    == name
                &&& !valid_utf8(name) ==> item->Some_0.0 is Err && item->Some_0.0->Err_0
                    == crate::string_ref::utf8_error(name)
            }),
    {
        let graph = self.keeper.raw();
        let ids = graph.ids(T::class());
        proof {
            lemma_kind_ids(graph.records(), T::spec_class());
        }
        if self.index >= ids.len() {
            return None;
        }
        let r = ids[self.index];
        proof {
            Record::lemma_spec_from_raw(self.keeper, r);
        }
        let name = StringRef::from_raw(graph.record(r).name.as_slice()).as_str();
        let record = Record::from_raw(self.keeper, r);
        self.index = self.index + 1;
        Some((name, record))
    }
}

impl<'a, T> Clone for NamedRecordIter<'a, T> {
    fn clone(&self) -> (iter: Self)
        ensures
            iter == *self,
    {
        NamedRecordIter { keeper: self.keeper, index: self.index, _kind: PhantomData }
    }
}

/// An iterator over some of the records of a record keeper.
pub struct RecordIter<'a> {
    keeper: &'a RecordKeeper,
    ids: Vec<usize>,
    index: usize,
}

impl<'a> RecordIter<'a> {
    /// The record keeper whose records the iterator yields.
    pub closed spec fn keeper(&self) -> &'a RecordKeeper {
        self.keeper
    }

    /// The numbers of the records that the iterator goes through.
    pub closed spec fn ids(&self) -> Seq<usize> {
        self.ids@
    }

    /// How many records the iterator has yielded.
    pub closed spec fn index(&self) -> usize {
        self.index
    }

    #[verifier::type_invariant]
    spec fn inv(&self) -> bool {
        forall|k: int|
            0 <= k < self.ids@.len() ==> (#[trigger] self.ids@[k]) < self.keeper@.records().len()
    }

    /// Returns the next record.
    pub fn next(&mut self) -> (record: Option<Record<'a>>)
        ensures
            final(self).keeper() == old(self).keeper(),
            final(self).ids() == old(self).ids(),
            old(self).index() >= old(self).ids().len() ==> record is None && final(self).index()
                == old(self).index(),
            old(self).index() < old(self).ids().len() ==> final(self).index() == old(self).index()
                + 1 && record == Some(
                old(self).keeper().record(old(self).ids()[old(self).index() as int] as int),
            ),
    {
        proof {
            use_type_invariant(&*self);
        }
        if self.index >= self.ids.len() {
            return None;
        }
        let record = Record::from_raw(self.keeper, self.ids[self.index]);
        self.index = self.index + 1;
        Some(record)
    }
}

} // verus!
