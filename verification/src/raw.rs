//! The object model of the TableGen compiler, held as plain data.
//!
//! The compiler turns its input into records (classes and definitions) and
//! into typed values that the fields of the records refer to. A
//! [`RecordGraph`] holds both in the order in which they were made. Records
//! and values are known by their number in that order, so a value can name a
//! record and a record can name its values.
//!
//! A graph only grows. Whatever is added is checked against what is already
//! there, so that a number stored in the graph always names something.

use crate::error::SourceLocation;
use crate::string_ref::{lemma_bytes_decode, str_from_utf8};
use vstd::hash_map::StringHashMap;
use vstd::prelude::*;
use vstd::string::StringSliceAdditionalSpecFns;
use vstd::utf8::{encode_utf8, valid_utf8};

verus! {

/// One argument of a dag: a value and, if it was given one, its name.
#[derive(Debug, Clone, PartialEq, Eq)]
pub struct RawDagArg {
    /// The name that follows the `$` sign, if there is one.
    pub name: Option<Vec<u8>>,
    /// The number of the value.
    pub value: usize,
}

/// One typed value, as the compiler holds it.
#[derive(Debug, Clone, PartialEq, Eq)]
pub enum RawInit {
    /// A single bit: 0 or 1.
    Bit(i8),
    /// A sequence of bits, given by the numbers of its bit values. The first
    /// is the least significant bit.
    Bits(Vec<usize>),
    /// A piece of code.
    Code(Vec<u8>),
    /// An integer.
    Int(i64),
    /// A string.
    String(Vec<u8>),
    /// A list, given by the numbers of its elements.
    List(Vec<usize>),
    /// A dag: the number of the record that is its operator, and its
    /// arguments.
    Dag(usize, Vec<RawDagArg>),
    /// A reference to the record with the given number.
    Def(usize),
    /// A value of a type that this crate does not know.
    Unknown,
}

/// One field of a record.
#[derive(Debug, Clone, PartialEq, Eq)]
pub struct RawRecordVal {
    /// The number of the string value that holds the name of the field.
    pub name: usize,
    /// The number of the value of the field.
    pub value: usize,
    /// Where the field was declared.
    pub loc: SourceLocation,
}

/// One class or definition.
#[derive(Debug, Clone, PartialEq, Eq)]
pub struct RawRecord {
    /// The name of the record.
    pub name: Vec<u8>,
    /// Whether the record is a class. If not, it is a definition.
    pub class: bool,
    /// Whether the record was declared without a name.
    pub anonymous: bool,
    /// The numbers of the classes that the record was declared to derive
    /// from.
    pub parents: Vec<usize>,
    /// The numbers of all classes that the record derives from, be it
    /// directly or through other classes. No number occurs twice.
    pub superclasses: Vec<usize>,
    /// Where the record was declared.
    pub loc: SourceLocation,
}

/// Whether record `r` derives from record `c`, directly or through other
/// classes.
pub open spec fn derives(records: Seq<RawRecord>, r: int, c: int) -> bool
    decreases r,
{
    &&& 0 <= r < records.len()
    &&& exists|k: int|
        0 <= k < records[r].parents@.len() && {
            let p = #[trigger] records[r].parents@[k] as int;
            p < r && (p == c || derives(records, p, c))
        }
}

/// Whether the record with number `r` derives, directly or through other
/// classes, from a class with the given name.
pub open spec fn subclass_named(records: Seq<RawRecord>, r: int, class: Seq<u8>) -> bool {
    exists|c: int| #[trigger] derives(records, r, c) && records[c].name@ == class
}

/// The numbers of the classes (or of the definitions) among the records, in
/// the order of their declaration.
pub open spec fn kind_ids(records: Seq<RawRecord>, class: bool) -> Seq<usize>
    decreases records.len(),
{
    if records.len() == 0 {
        Seq::empty()
    } else if records.last().class == class {
        kind_ids(records.drop_last(), class).push((records.len() - 1) as usize)
    } else {
        kind_ids(records.drop_last(), class)
    }
}

/// The number of the first class (or of the first definition) with the given
/// name.
pub open spec fn first_named(records: Seq<RawRecord>, class: bool, name: Seq<u8>) -> Option<int>
    decreases records.len(),
{
    if records.len() == 0 {
        None
    } else {
        match first_named(records.drop_last(), class, name) {
            Some(r) => Some(r),
            None => if records.last().class == class && records.last().name@ == name {
                Some(records.len() - 1)
            } else {
                None
            },
        }
    }
}

/// Whether the given numbers name classes among the records.
pub open spec fn parents_valid(records: Seq<RawRecord>, parents: Seq<usize>) -> bool {
    forall|k: int|
        0 <= k < parents.len() ==> (#[trigger] parents[k]) < records.len()
            && records[parents[k] as int].class
}

/// Whether a value may be added to a graph that holds `records` records and
/// the values `inits`.
pub open spec fn init_valid(init: RawInit, records: int, inits: Seq<RawInit>) -> bool {
    match init {
        RawInit::Bit(bit) => bit == 0 || bit == 1,
        RawInit::Bits(bits) => forall|k: int|
            0 <= k < bits@.len() ==> (#[trigger] bits@[k]) < inits.len()
                && inits[bits@[k] as int] is Bit,
        RawInit::List(elements) => forall|k: int|
            0 <= k < elements@.len() ==> (#[trigger] elements@[k]) < inits.len(),
        RawInit::Dag(operator, args) => operator < records && forall|k: int|
            0 <= k < args@.len() ==> (#[trigger] args@[k]).value < inits.len(),
        RawInit::Def(record) => record < records,
        _ => true,
    }
}

/// Whether the record with number `r` fits the records before it.
pub open spec fn record_wf(records: Seq<RawRecord>, r: int) -> bool {
    &&& forall|k: int|
        0 <= k < records[r].parents@.len() ==> (#[trigger] records[r].parents@[k]) < r
            && records[records[r].parents@[k] as int].class
    &&& forall|c: usize| #[trigger]
        records[r].superclasses@.contains(c) <==> derives(records, r, c as int)
    &&& records[r].superclasses@.no_duplicates()
}

/// Whether the fields of a record name values of the graph, their names
/// being strings.
pub open spec fn values_wf(values: Seq<RawRecordVal>, inits: Seq<RawInit>) -> bool {
    forall|k: int|
        0 <= k < values.len() ==> (#[trigger] values[k]).name < inits.len()
            && inits[values[k].name as int] is String && values[k].value < inits.len()
}

/// What a name index holds for a name.
spec fn index_entry(index: Map<Seq<char>, usize>, name: Seq<char>) -> Option<int> {
    if index.contains_key(name) {
        Some(index[name] as int)
    } else {
        None
    }
}

/// Whether a name index maps each name to the first class (or definition)
/// of that name.
spec fn index_wf(index: Map<Seq<char>, usize>, records: Seq<RawRecord>, class: bool) -> bool {
    forall|name: Seq<char>| #[trigger]
        index_entry(index, name) == first_named(records, class, encode_utf8(name))
}

/// Whether one of the first `i` parents is `c` or derives from `c`.
spec fn covered(records: Seq<RawRecord>, parents: Seq<usize>, i: int, c: usize) -> bool {
    exists|k: int|
        0 <= k < i && ((#[trigger] parents[k]) == c
            || records[parents[k] as int].superclasses@.contains(c))
}

/// Adding a record changes nothing about who derives from whom among the
/// records that were there before.
proof fn lemma_derives_push(records: Seq<RawRecord>, x: RawRecord, r: int, c: int)
    requires
        0 <= r < records.len(),
    ensures
        derives(records.push(x), r, c) == derives(records, r, c),
    decreases r,
{
    let grown = records.push(x);
    assert(grown[r] == records[r]);
    let parents = records[r].parents@;
    if derives(records, r, c) {
        let k = choose|k: int|
            0 <= k < parents.len() && {
                let p = #[trigger] parents[k] as int;
                p < r && (p == c || derives(records, p, c))
            };
        let p = parents[k] as int;
        if p != c {
            lemma_derives_push(records, x, p, c);
        }
        assert(derives(grown, r, c));
    }
    if derives(grown, r, c) {
        let k = choose|k: int|
            0 <= k < parents.len() && {
                let p = #[trigger] parents[k] as int;
                p < r && (p == c || derives(grown, p, c))
            };
        let p = parents[k] as int;
        if p != c {
            lemma_derives_push(records, x, p, c);
        }
        assert(derives(records, r, c));
    }
}

/// A record derives only from classes that were declared before it.
pub proof fn lemma_derives_class(records: Seq<RawRecord>, r: int, c: int)
    requires
        forall|q: int| 0 <= q < records.len() ==> #[trigger] record_wf(records, q),
        derives(records, r, c),
    ensures
        0 <= c < r,
        records[c].class,
    decreases r,
{
    let parents = records[r].parents@;
    let k = choose|k: int|
        0 <= k < parents.len() && {
            let p = #[trigger] parents[k] as int;
            p < r && (p == c || derives(records, p, c))
        };
    let p = parents[k] as int;
    assert(record_wf(records, r));
    if p != c {
        lemma_derives_class(records, p, c);
    }
}

/// Deriving is transitive.
pub proof fn lemma_derives_transitive(records: Seq<RawRecord>, r: int, b: int, c: int)
    requires
        derives(records, r, b),
        derives(records, b, c),
    ensures
        derives(records, r, c),
    decreases r,
{
    let parents = records[r].parents@;
    let k = choose|k: int|
        0 <= k < parents.len() && {
            let p = #[trigger] parents[k] as int;
            p < r && (p == b || derives(records, p, b))
        };
    let p = parents[k] as int;
    if p != b {
        lemma_derives_transitive(records, p, b, c);
    }
}

/// The numbers that [`kind_ids`] lists name records of the kind asked for,
/// and they come in rising order.
pub proof fn lemma_kind_ids(records: Seq<RawRecord>, class: bool)
    requires
        records.len() <= usize::MAX,
    ensures
        forall|k: int|
            0 <= k < kind_ids(records, class).len() ==> (#[trigger] kind_ids(records, class)[k])
                < records.len() && records[kind_ids(records, class)[k] as int].class == class,
        forall|j: int, k: int|
            0 <= j < k < kind_ids(records, class).len() ==> kind_ids(records, class)[j]
                < kind_ids(records, class)[k],
        forall|r: int|
            0 <= r < records.len() && (#[trigger] records[r]).class == class ==> kind_ids(
                records,
                class,
            ).contains(r as usize),
    decreases records.len(),
{
    if records.len() > 0 {
        let rest = records.drop_last();
        lemma_kind_ids(rest, class);
        let ids = kind_ids(records, class);
        let before = kind_ids(rest, class);
        assert forall|k: int| 0 <= k < ids.len() implies (#[trigger] ids[k]) < records.len()
            && records[ids[k] as int].class == class by {
            if k < before.len() {
                assert(ids[k] == before[k]);
                assert(rest[before[k] as int] == records[before[k] as int]);
            }
        }
        assert forall|j: int, k: int| 0 <= j < k < ids.len() implies ids[j] < ids[k] by {
            assert(ids[j] == before[j]);
            if k < before.len() {
                assert(ids[k] == before[k]);
            }
        }
        assert forall|r: int|
            0 <= r < records.len() && (#[trigger] records[r]).class == class implies ids.contains(
            r as usize,
        ) by {
            if r < rest.len() {
                assert(rest[r].class == class);
                assert(before.contains(r as usize));
                let k = choose|k: int| 0 <= k < before.len() && before[k] == r as usize;
                assert(ids[k] == r as usize);
            } else {
                assert(ids[ids.len() - 1] == r as usize);
            }
        }
    }
}

/// The record that [`first_named`] finds has the name and the kind asked
/// for, and no record before it has both.
pub proof fn lemma_first_named(records: Seq<RawRecord>, class: bool, name: Seq<u8>)
    ensures
        first_named(records, class, name) matches Some(r) ==> 0 <= r < records.len()
            && records[r].class == class && records[r].name@ == name && forall|q: int|
            0 <= q < r ==> !(records[q].class == class && (#[trigger] records[q]).name@ == name),
        first_named(records, class, name) is None ==> forall|q: int|
            0 <= q < records.len() ==> !(records[q].class == class && (#[trigger] records[q]).name@
                == name),
    decreases records.len(),
{
    if records.len() > 0 {
        let rest = records.drop_last();
        lemma_first_named(rest, class, name);
        assert forall|q: int| 0 <= q < rest.len() implies rest[q] == #[trigger] records[q] by {}
    }
}

/// What [`kind_ids`] lists after one more record was declared.
proof fn lemma_push_kind_ids(records: Seq<RawRecord>, x: RawRecord, class: bool)
    ensures
        kind_ids(records.push(x), class) == if x.class == class {
            kind_ids(records, class).push(records.len() as usize)
        } else {
            kind_ids(records, class)
        },
{
    assert(records.push(x).drop_last() == records);
}

/// What [`first_named`] finds after one more record was declared.
proof fn lemma_push_first_named(
    records: Seq<RawRecord>,
    x: RawRecord,
    class: bool,
    name: Seq<u8>,
)
    ensures
        first_named(records.push(x), class, name) == match first_named(records, class, name) {
            Some(r) => Some(r),
            None => if x.class == class && x.name@ == name {
                Some(records.len() as int)
            } else {
                None
            },
        },
{
    assert(records.push(x).drop_last() == records);
}

/// A record whose superclasses are its parents and their superclasses fits
/// the records before it, and these still fit each other.
proof fn lemma_push_record_wf(records: Seq<RawRecord>, x: RawRecord)
    requires
        forall|r: int| 0 <= r < records.len() ==> #[trigger] record_wf(records, r),
        parents_valid(records, x.parents@),
        x.superclasses@.no_duplicates(),
        forall|c: usize| #[trigger]
            x.superclasses@.contains(c) <==> covered(
                records,
                x.parents@,
                x.parents@.len() as int,
                c,
            ),
    ensures
        forall|r: int| 0 <= r <= records.len() ==> #[trigger] record_wf(records.push(x), r),
{
    let grown = records.push(x);
    let n = records.len() as int;
    assert forall|r: int| 0 <= r <= n implies #[trigger] record_wf(grown, r) by {
        if r < n {
            assert(record_wf(records, r));
            assert(grown[r] == records[r]);
            assert forall|c: usize| #[trigger]
                grown[r].superclasses@.contains(c) <==> derives(grown, r, c as int) by {
                lemma_derives_push(records, x, r, c as int);
            }
        } else {
            assert(grown[n] == x);
            assert forall|c: usize| #[trigger]
                x.superclasses@.contains(c) <==> derives(grown, n, c as int) by {
                if covered(records, x.parents@, x.parents@.len() as int, c) {
                    let k = choose|k: int|
                        0 <= k < x.parents@.len() && ((#[trigger] x.parents@[k]) == c
                            || records[x.parents@[k] as int].superclasses@.contains(c));
                    let p = x.parents@[k] as int;
                    assert(record_wf(records, p));
                    lemma_derives_push(records, x, p, c as int);
                    assert(derives(grown, n, c as int));
                }
                if derives(grown, n, c as int) {
                    let k = choose|k: int|
                        0 <= k < x.parents@.len() && {
                            let p = #[trigger] x.parents@[k] as int;
                            p < n && (p == c as int || derives(grown, p, c as int))
                        };
                    let p = x.parents@[k] as int;
                    assert(record_wf(records, p));
                    lemma_derives_push(records, x, p, c as int);
                    assert(covered(records, x.parents@, x.parents@.len() as int, c));
                }
            }
        }
    }
}

/// Says whether `id` is among `ids`.
pub fn contains_id(ids: &Vec<usize>, id: usize) -> (found: bool)
    ensures
        found == ids@.contains(id),
{
    let mut i: usize = 0;
    while i < ids.len()
        invariant
            i <= ids.len(),
            forall|k: int| 0 <= k < i ==> ids@[k] != id,
        decreases ids.len() - i,
    {
        if ids[i] == id {
            return true;
        }
        i = i + 1;
    }
    false
}

/// Adds `id` to `ids` unless it is there already.
fn push_unique(ids: &mut Vec<usize>, id: usize)
    requires
        old(ids)@.no_duplicates(),
    ensures
        final(ids)@.no_duplicates(),
        forall|c: usize| #[trigger] final(ids)@.contains(c) <==> old(ids)@.contains(c) || c == id,
{
    if !contains_id(ids, id) {
        let ghost before = ids@;
        ids.push(id);
        assert forall|c: usize| #[trigger] ids@.contains(c) <==> before.contains(c) || c
            == id by {
            if before.contains(c) {
                let k = choose|k: int| 0 <= k < before.len() && before[k] == c;
                assert(ids@[k] == c);
            }
            if c == id {
                assert(ids@[before.len() as int] == c);
            }
        }
    }
}

/// Adds to `ids` each of `more` that is not there already.
fn extend_unique(ids: &mut Vec<usize>, more: &Vec<usize>)
    requires
        old(ids)@.no_duplicates(),
    ensures
        final(ids)@.no_duplicates(),
        forall|c: usize| #[trigger]
            final(ids)@.contains(c) <==> old(ids)@.contains(c) || more@.contains(c),
{
    let mut j: usize = 0;
    while j < more.len()
        invariant
            j <= more.len(),
            ids@.no_duplicates(),
            forall|c: usize| #[trigger]
                ids@.contains(c) <==> old(ids)@.contains(c) || more@.take(j as int).contains(c),
        decreases more.len() - j,
    {
        let ghost before = ids@;
        let ghost seen = more@.take(j as int);
        let ghost next = more@.take(j + 1);
        push_unique(ids, more[j]);
        assert forall|c: usize| #[trigger]
            ids@.contains(c) <==> old(ids)@.contains(c) || next.contains(c) by {
            assert(before.contains(c) <==> old(ids)@.contains(c) || seen.contains(c));
            if seen.contains(c) {
                let k = choose|k: int| 0 <= k < seen.len() && seen[k] == c;
                assert(next[k] == c);
            }
            if c == more@[j as int] {
                assert(next[j as int] == c);
            }
            if next.contains(c) {
                let k = choose|k: int| 0 <= k < next.len() && next[k] == c;
                if k < j {
                    assert(seen[k] == c);
                }
            }
        }
        j = j + 1;
    }
    assert(more@.take(j as int) == more@);
}

/// All records and values that the compiler made of its input.
pub struct RecordGraph {
    records: Vec<RawRecord>,
    values: Vec<Vec<RawRecordVal>>,
    inits: Vec<RawInit>,
    classes: Vec<usize>,
    defs: Vec<usize>,
    class_index: StringHashMap<usize>,
    def_index: StringHashMap<usize>,
}

impl RecordGraph {
    /// The records, in the order of their declaration.
    pub closed spec fn records(&self) -> Seq<RawRecord> {
        self.records@
    }

    /// The fields of each record, in the order of their declaration.
    pub closed spec fn values(&self) -> Seq<Vec<RawRecordVal>> {
        self.values@
    }

    /// The values, in the order in which they were added.
    pub closed spec fn inits(&self) -> Seq<RawInit> {
        self.inits@
    }

    /// Whether the private tables of the graph agree with its records.
    pub closed spec fn tables_wf(&self) -> bool {
        &&& self.classes@ == kind_ids(self.records@, true)
        &&& self.defs@ == kind_ids(self.records@, false)
        &&& index_wf(self.class_index@, self.records@, true)
        &&& index_wf(self.def_index@, self.records@, false)
    }

    /// Whether every number stored in the graph names what it should. This
    /// holds of every graph.
    #[verifier::type_invariant]
    pub open spec fn wf(&self) -> bool {
        &&& self.tables_wf()
        &&& self.records().len() <= usize::MAX
        &&& self.inits().len() <= usize::MAX
        &&& self.values().len() == self.records().len()
        &&& forall|r: int| 0 <= r < self.records().len() ==> #[trigger] record_wf(self.records(), r)
        &&& forall|r: int|
            0 <= r < self.records().len() ==> values_wf(
                (#[trigger] self.values()[r])@,
                self.inits(),
            )
        &&& forall|i: int|
            0 <= i < self.inits().len() ==> init_valid(
                #[trigger] self.inits()[i],
                self.records().len() as int,
                self.inits().take(i),
            )
    }

    /// Creates a graph without records and values.
    pub fn new() -> (graph: Self)
        ensures
            graph.wf(),
            graph.records().len() == 0,
            graph.inits().len() == 0,
    {
        let graph = RecordGraph {
            records: Vec::new(),
            values: Vec::new(),
            inits: Vec::new(),
            classes: Vec::new(),
            defs: Vec::new(),
            class_index: StringHashMap::new(),
            def_index: StringHashMap::new(),
        };
        assert(graph.tables_wf()) by {
            assert forall|name: Seq<char>| #[trigger]
                index_entry(graph.class_index@, name) == first_named(
                    graph.records@,
                    true,
                    encode_utf8(name),
                ) by {}
            assert forall|name: Seq<char>| #[trigger]
                index_entry(graph.def_index@, name) == first_named(
                    graph.records@,
                    false,
                    encode_utf8(name),
                ) by {}
        }
        graph
    }

    /// Returns the number of records.
    pub fn num_records(&self) -> (n: usize)
        ensures
            n == self.records().len(),
    {
        self.records.len()
    }

    /// Returns the number of values.
    pub fn num_inits(&self) -> (n: usize)
        ensures
            n == self.inits().len(),
    {
        self.inits.len()
    }

    /// Returns the record with the given number.
    pub fn record(&self, r: usize) -> (record: &RawRecord)
        requires
            r < self.records().len(),
        ensures
            *record == self.records()[r as int],
    {
        &self.records[r]
    }

    /// Returns the fields of the record with the given number.
    pub fn record_values(&self, r: usize) -> (values: &Vec<RawRecordVal>)
        requires
            r < self.values().len(),
        ensures
            *values == self.values()[r as int],
    {
        &self.values[r]
    }

    /// Returns the value with the given number.
    pub fn init(&self, i: usize) -> (init: &RawInit)
        requires
            i < self.inits().len(),
        ensures
            *init == self.inits()[i as int],
    {
        &self.inits[i]
    }

    /// Returns the numbers of the classes (if `class` is set) or of the
    /// definitions, in the order of their declaration.
    pub fn ids(&self, class: bool) -> (ids: &Vec<usize>)
        ensures
            ids@ == kind_ids(self.records(), class),
    {
        proof {
            use_type_invariant(self);
        }
        if class {
            &self.classes
        } else {
            &self.defs
        }
    }

    /// Looks up the first class (if `class` is set) or the first definition
    /// with the given name.
    pub fn find(&self, class: bool, name: &str) -> (found: Option<usize>)
        ensures
            found is Some <==> first_named(self.records(), class, name.spec_bytes()) is Some,
            found matches Some(r) ==> first_named(self.records(), class, name.spec_bytes())
                == Some(r as int),
    {
        proof {
            use_type_invariant(self);
        }
        let entry = if class {
            proof {
                assert(index_entry(self.class_index@, name@) == first_named(
                    self.records@,
                    true,
                    encode_utf8(name@),
                ));
            }
            self.class_index.get(name)
        } else {
            proof {
                assert(index_entry(self.def_index@, name@) == first_named(
                    self.records@,
                    false,
                    encode_utf8(name@),
                ));
            }
            self.def_index.get(name)
        };
        match entry {
            Some(r) => Some(*r),
            None => None,
        }
    }

    /// Says whether `init` may be added to the graph.
    #[verifier::loop_isolation(false)]
    pub fn init_ok(&self, init: &RawInit) -> (ok: bool)
        ensures
            ok == init_valid(*init, self.records().len() as int, self.inits()),
    {
        match init {
            RawInit::Bit(bit) => *bit == 0 || *bit == 1,
            RawInit::Bits(bits) => {
                let mut k: usize = 0;
                while k < bits.len()
                    invariant
                        k <= bits.len(),
                        forall|j: int|
                            0 <= j < k ==> (#[trigger] bits@[j]) < self.inits@.len()
                                && self.inits@[bits@[j] as int] is Bit,
                    decreases bits.len() - k,
                {
                    if bits[k] >= self.inits.len() {
                        return false;
                    }
                    match &self.inits[bits[k]] {
                        RawInit::Bit(_) => {},
                        _ => {
                            return false;
                        },
                    }
                    k = k + 1;
                }
                true
            },
            RawInit::List(elements) => {
                let mut k: usize = 0;
                while k < elements.len()
                    invariant
                        k <= elements.len(),
                        forall|j: int|
                            0 <= j < k ==> (#[trigger] elements@[j]) < self.inits@.len(),
                    decreases elements.len() - k,
                {
                    if elements[k] >= self.inits.len() {
                        return false;
                    }
                    k = k + 1;
                }
                true
            },
            RawInit::Dag(operator, args) => {
                if *operator >= self.records.len() {
                    return false;
                }
                let mut k: usize = 0;
                while k < args.len()
                    invariant
                        k <= args.len(),
                        forall|j: int|
                            0 <= j < k ==> (#[trigger] args@[j]).value < self.inits@.len(),
                    decreases args.len() - k,
                {
                    if args[k].value >= self.inits.len() {
                        return false;
                    }
                    k = k + 1;
                }
                true
            },
            RawInit::Def(record) => *record < self.records.len(),
            _ => true,
        }
    }

    /// Adds a value to the graph and returns its number.
    ///
    /// Nothing is added, and `None` is returned, if the value names a record
    /// or a value that the graph does not hold, if a bit is neither 0 nor 1,
    /// or if a bit sequence names a value that is not a bit.
    pub fn add_init(&mut self, init: RawInit) -> (id: Option<usize>)
        ensures
            final(self).wf(),
            final(self).records() == old(self).records(),
            final(self).values() == old(self).values(),
            id is Some <==> init_valid(
                init,
                old(self).records().len() as int,
                old(self).inits(),
            ),
            id is None ==> final(self).inits() == old(self).inits(),
            id matches Some(i) ==> i == old(self).inits().len() && final(self).inits() == old(
                self,
            ).inits().push(init),
    {
        proof {
            use_type_invariant(&*self);
        }
        if !self.init_ok(&init) {
            return None;
        }
        let mut taken = RecordGraph::new();
        core::mem::swap(self, &mut taken);
        let RecordGraph { records, values, mut inits, classes, defs, class_index, def_index } =
            taken;
        let id = inits.len();
        let ghost before = inits@;
        inits.push(init);
        proof {
            let grown = inits@;
            assert(grown.len() == inits.len());
            assert(grown.take(id as int) == before);
            assert forall|i: int| 0 <= i < grown.len() implies init_valid(
                #[trigger] grown[i],
                records@.len() as int,
                grown.take(i),
            ) by {
                if i < id {
                    assert(grown.take(i) == before.take(i));
                    assert(grown[i] == before[i]);
                    assert(init_valid(
                        old(self).inits()[i],
                        old(self).records().len() as int,
                        old(self).inits().take(i),
                    ));
                }
            }
            assert forall|r: int| 0 <= r < records@.len() implies values_wf(
                (#[trigger] values@[r])@,
                grown,
            ) by {
                let fields = values@[r]@;
                assert(values_wf((#[trigger] old(self).values()[r])@, before));
                assert forall|k: int| 0 <= k < fields.len() implies (#[trigger] fields[k]).name
                    < grown.len() && grown[fields[k].name as int] is String && fields[k].value
                    < grown.len() by {
                    assert(grown[fields[k].name as int] == before[fields[k].name as int]);
                }
            }
            assert forall|r: int| 0 <= r < records@.len() implies #[trigger] record_wf(
                records@,
                r,
            ) by {
                assert(record_wf(old(self).records(), r));
            }
        }
        *self = RecordGraph { records, values, inits, classes, defs, class_index, def_index };
        Some(id)
    }

    /// Adds a field to the record with number `record` and returns the
    /// position of the field among the fields of that record.
    ///
    /// The name of the field becomes a string value of its own. Nothing is
    /// added, and `None` is returned, if the graph holds no such record or no
    /// value with number `value`.
    pub fn add_value(
        &mut self,
        record: usize,
        name: Vec<u8>,
        value: usize,
        loc: SourceLocation,
    ) -> (index: Option<usize>)
        ensures
            final(self).wf(),
            final(self).records() == old(self).records(),
            final(self).values().len() == old(self).values().len(),
            index is Some <==> record < old(self).records().len() && value < old(
                self,
            ).inits().len(),
            index is None ==> final(self).inits() == old(self).inits() && final(self).values()
                == old(self).values(),
            index matches Some(k) ==> {
                &&& k == old(self).values()[record as int]@.len()
                &&& final(self).inits() == old(self).inits().push(RawInit::String(name))
                &&& final(self).values()[record as int]@ == old(self).values()[record as int]@.push(
                    RawRecordVal { name: old(self).inits().len() as usize, value, loc },
                )
                &&& forall|r: int|
                    0 <= r < old(self).values().len() && r != record ==> final(self).values()[r]
                        == old(self).values()[r]
            },
    {
        proof {
            use_type_invariant(&*self);
        }
        if record >= self.records.len() || value >= self.inits.len() {
            return None;
        }
        let mut taken = RecordGraph::new();
        core::mem::swap(self, &mut taken);
        let RecordGraph { records, mut values, mut inits, classes, defs, class_index, def_index } =
            taken;
        let name_id = inits.len();
        let index = values[record].len();
        let ghost before = inits@;
        let ghost fields = values@;
        inits.push(RawInit::String(name));
        values[record].push(RawRecordVal { name: name_id, value, loc });
        proof {
            let grown = inits@;
            assert(grown.len() == inits.len());
            assert(grown.take(name_id as int) == before);
            assert forall|i: int| 0 <= i < grown.len() implies init_valid(
                #[trigger] grown[i],
                records@.len() as int,
                grown.take(i),
            ) by {
                if i < name_id {
                    assert(grown.take(i) == before.take(i));
                    assert(grown[i] == before[i]);
                    assert(init_valid(
                        old(self).inits()[i],
                        old(self).records().len() as int,
                        old(self).inits().take(i),
                    ));
                }
            }
            assert forall|r: int| 0 <= r < records@.len() implies values_wf(
                (#[trigger] values@[r])@,
                grown,
            ) by {
                let new_fields = values@[r]@;
                assert(values_wf((#[trigger] old(self).values()[r])@, before));
                assert forall|k: int|
                    0 <= k < new_fields.len() implies (#[trigger] new_fields[k]).name < grown.len()
                    && grown[new_fields[k].name as int] is String && new_fields[k].value
                    < grown.len() by {
                    if r == record && k == index {
                        assert(grown[name_id as int] is String);
                    } else {
                        assert(new_fields[k] == fields[r]@[k]);
                        let name = new_fields[k].name as int;
                        assert(grown[name] == before[name]);
                    }
                }
            }
            assert forall|r: int| 0 <= r < records@.len() implies #[trigger] record_wf(
                records@,
                r,
            ) by {
                assert(record_wf(old(self).records(), r));
            }
        }
        *self = RecordGraph { records, values, inits, classes, defs, class_index, def_index };
        Some(index)
    }

    /// Says whether each of `parents` is the number of a class.
    pub fn parents_ok(&self, parents: &Vec<usize>) -> (ok: bool)
        ensures
            ok == parents_valid(self.records(), parents@),
    {
        let mut k: usize = 0;
        while k < parents.len()
            invariant
                k <= parents.len(),
                forall|j: int|
                    0 <= j < k ==> (#[trigger] parents@[j]) < self.records@.len()
                        && self.records@[parents@[j] as int].class,
            decreases parents.len() - k,
        {
            if parents[k] >= self.records.len() {
                return false;
            }
            if !self.records[parents[k]].class {
                return false;
            }
            k = k + 1;
        }
        true
    }

    /// Collects the classes that a record with the given parents derives
    /// from: the parents and all their superclasses, each once.
    fn superclasses_of(&self, parents: &Vec<usize>) -> (all: Vec<usize>)
        requires
            parents_valid(self.records(), parents@),
        ensures
            all@.no_duplicates(),
            forall|c: usize| #[trigger]
                all@.contains(c) <==> covered(self.records(), parents@, parents@.len() as int, c),
    {
        let mut all: Vec<usize> = Vec::new();
        let mut i: usize = 0;
        while i < parents.len()
            invariant
                i <= parents.len(),
                parents_valid(self.records@, parents@),
                all@.no_duplicates(),
                forall|c: usize| #[trigger]
                    all@.contains(c) <==> covered(self.records@, parents@, i as int, c),
            decreases parents.len() - i,
        {
            let p = parents[i];
            let ghost before = all@;
            extend_unique(&mut all, &self.records[p].superclasses);
            push_unique(&mut all, p);
            proof {
                assert forall|c: usize| #[trigger]
                    all@.contains(c) <==> covered(self.records@, parents@, i + 1, c) by {
                    assert(before.contains(c) <==> covered(self.records@, parents@, i as int, c));
                    if covered(self.records@, parents@, i as int, c) {
                        let k = choose|k: int|
                            0 <= k < i && ((#[trigger] parents@[k]) == c
                                || self.records@[parents@[k] as int].superclasses@.contains(c));
                        assert(covered(self.records@, parents@, i + 1, c));
                    }
                    if p == c || self.records@[p as int].superclasses@.contains(c) {
                        assert(parents@[i as int] == p);
                        assert(covered(self.records@, parents@, i + 1, c));
                    }
                    if covered(self.records@, parents@, i + 1, c) {
                        let k = choose|k: int|
                            0 <= k < i + 1 && ((#[trigger] parents@[k]) == c
                                || self.records@[parents@[k] as int].superclasses@.contains(c));
                        if k < i {
                            assert(covered(self.records@, parents@, i as int, c));
                        }
                    }
                }
            }
            i = i + 1;
        }
        all
    }

    /// Declares a record and returns its number.
    ///
    /// `parents` are the numbers of the classes that the record derives
    /// from. The record is a class if `class` is set and a definition
    /// otherwise. Nothing is added, and `None` is returned, if one of the
    /// parents is not the number of a class.
    pub fn add_record(
        &mut self,
        name: Vec<u8>,
        class: bool,
        anonymous: bool,
        parents: Vec<usize>,
        loc: SourceLocation,
    ) -> (id: Option<usize>)
        ensures
            final(self).wf(),
            final(self).inits() == old(self).inits(),
            id is Some <==> parents_valid(old(self).records(), parents@),
            id is None ==> final(self).records() == old(self).records() && final(self).values()
                == old(self).values(),
            id matches Some(r) ==> {
                &&& r == old(self).records().len()
                &&& final(self).records().len() == r + 1
                &&& final(self).records().take(r as int) == old(self).records()
                &&& final(self).records()[r as int].name@ == name@
                &&& final(self).records()[r as int].class == class
                &&& final(self).records()[r as int].anonymous == anonymous
                &&& final(self).records()[r as int].parents@ == parents@
                &&& final(self).records()[r as int].loc == loc
                &&& final(self).values().take(r as int) == old(self).values()
                &&& final(self).values()[r as int]@.len() == 0
            },
    {
        proof {
            use_type_invariant(&*self);
        }
        if !self.parents_ok(&parents) {
            return None;
        }
        let superclasses = self.superclasses_of(&parents);
        let mut taken = RecordGraph::new();
        core::mem::swap(self, &mut taken);
        let RecordGraph {
            mut records,
            mut values,
            inits,
            mut classes,
            mut defs,
            mut class_index,
            mut def_index,
        } = taken;
        let id = records.len();
        let ghost before = records@;
        let ghost class_names = class_index@;
        let ghost def_names = def_index@;
        match str_from_utf8(name.as_slice()) {
            Ok(text) => {
                proof {
                    lemma_bytes_decode(text, name@);
                    assert(index_entry(class_names, text@) == first_named(
                        before,
                        true,
                        encode_utf8(text@),
                    ));
                    assert(index_entry(def_names, text@) == first_named(
                        before,
                        false,
                        encode_utf8(text@),
                    ));
                }
                if class {
                    if !class_index.contains_key(text) {
                        class_index.insert(String::from_str(text), id);
                    }
                } else {
                    if !def_index.contains_key(text) {
                        def_index.insert(String::from_str(text), id);
                    }
                }
            },
            Err(_) => {},
        }
        records.push(RawRecord { name, class, anonymous, parents, superclasses, loc });
        values.push(Vec::new());
        if class {
            classes.push(id);
        } else {
            defs.push(id);
        }
        proof {
            let x = records@[id as int];
            let grown = records@;
            assert(grown.len() == records.len());
            assert(grown == before.push(x));
            assert(grown.take(id as int) == before);
            assert(values@.take(id as int) == old(self).values());
            lemma_push_kind_ids(before, x, true);
            lemma_push_kind_ids(before, x, false);
            lemma_push_record_wf(before, x);
            assert forall|text: Seq<char>| #[trigger]
                index_entry(class_index@, text) == first_named(grown, true, encode_utf8(text)) by {
                lemma_push_first_named(before, x, true, encode_utf8(text));
                assert(index_entry(class_names, text) == first_named(
                    before,
                    true,
                    encode_utf8(text),
                ));
                vstd::utf8::encode_utf8_valid_utf8(text);
                vstd::utf8::encode_utf8_decode_utf8(text);
                if valid_utf8(x.name@) {
                    vstd::utf8::decode_utf8_encode_utf8(x.name@);
                }
            }
            assert forall|text: Seq<char>| #[trigger]
                index_entry(def_index@, text) == first_named(grown, false, encode_utf8(text)) by {
                lemma_push_first_named(before, x, false, encode_utf8(text));
                assert(index_entry(def_names, text) == first_named(
                    before,
                    false,
                    encode_utf8(text),
                ));
                vstd::utf8::encode_utf8_valid_utf8(text);
                vstd::utf8::encode_utf8_decode_utf8(text);
                if valid_utf8(x.name@) {
                    vstd::utf8::decode_utf8_encode_utf8(x.name@);
                }
            }
            assert forall|r: int| 0 <= r < grown.len() implies values_wf(
                (#[trigger] values@[r])@,
                inits@,
            ) by {
                if r < id {
                    assert(values@[r] == old(self).values()[r]);
                    assert(values_wf((#[trigger] old(self).values()[r])@, old(self).inits()));
                }
            }
            assert forall|i: int| 0 <= i < inits@.len() implies init_valid(
                #[trigger] inits@[i],
                grown.len() as int,
                inits@.take(i),
            ) by {
                assert(init_valid(
                    old(self).inits()[i],
                    old(self).records().len() as int,
                    old(self).inits().take(i),
                ));
            }
        }
        *self = RecordGraph { records, values, inits, classes, defs, class_index, def_index };
        Some(id)
    }
}

} // verus!
