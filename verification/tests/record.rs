use tblgen::error::{Message, SourceLocation, TableGenError};
use tblgen::init::TypedInit;
use tblgen::raw::{RawInit, RecordGraph};
use tblgen::{Record, RecordKeeper, TableGenParser};

fn add_record(graph: &mut RecordGraph, name: &str, class: bool, parents: &[usize]) -> usize {
    graph
        .add_record(
            name.as_bytes().to_vec(),
            class,
            false,
            parents.to_vec(),
            SourceLocation::none(),
        )
        .expect("the parents are classes")
}

fn add_field(graph: &mut RecordGraph, record: usize, name: &str, init: RawInit) {
    let value = graph.add_init(init).expect("valid init");
    graph
        .add_value(record, name.as_bytes().to_vec(), value, SourceLocation::none())
        .expect("record and value exist");
}

fn keeper(source: &str, graph: RecordGraph) -> RecordKeeper {
    TableGenParser::new()
        .add_source(source, true)
        .unwrap()
        .parse(Some(graph))
        .expect("valid tablegen")
}

fn find_def<'a>(rk: &'a RecordKeeper, wanted: impl Fn(&Record<'a>) -> bool) -> Option<Record<'a>> {
    let mut defs = rk.defs();
    while let Some((_name, def)) = defs.next() {
        if wanted(&def) {
            return Some(def);
        }
    }
    None
}

#[test]
fn record() {
    let mut graph = RecordGraph::new();
    let a = add_record(&mut graph, "A", true, &[]);
    let b = add_record(&mut graph, "B", true, &[]);
    let c = add_record(&mut graph, "C", true, &[]);
    add_record(&mut graph, "D1", false, &[a]);
    add_record(&mut graph, "D2", false, &[a, b]);
    graph
        .add_record(
            b"anonymous_0".to_vec(),
            false,
            true,
            vec![b, c],
            SourceLocation::none(),
        )
        .expect("the parents are classes");
    let rk = TableGenParser::new()
        .add_source(
            r#"
                class A;
                class B;
                class C;

                def D1: A;
                def D2: A, B;
                def : B, C;
                "#,
            true,
        )
        .unwrap()
        .parse(Some(graph))
        .expect("valid tablegen");
    let d2 = rk.def("D2").expect("D2 exists");
    assert!(d2.subclass_of("A"));
    assert!(d2.subclass_of("B"));
    assert!(!d2.subclass_of("C"));
    assert!(!d2.subclass_of("D"));
    let mut defs = rk.defs();
    let mut anon = None;
    while let Some((_name, def)) = defs.next() {
        if anon.is_none() && def.anonymous() {
            anon = Some(def);
        }
    }
    let anon = anon.expect("anonymous class exists");
    assert!(!anon.subclass_of("A"));
    assert!(anon.subclass_of("B"));
    assert!(anon.subclass_of("C"));
}

#[test]
fn single_value() {
    let mut graph = RecordGraph::new();
    let a = add_record(&mut graph, "A", false, &[]);
    add_field(&mut graph, a, "size", RawInit::Int(42));
    let rk = TableGenParser::new()
        .add_source(
            r#"
                def A {
                    int size = 42;
                }
                "#,
            true,
        )
        .unwrap()
        .parse(Some(graph))
        .expect("valid tablegen");
    let a = rk.def("A").expect("def A exists");
    assert_eq!(a.name(), Ok("A"));
    assert_eq!(a.int_value("size"), Ok(42));
    assert_eq!(
        a.value("size")
            .and_then(|v| {
                assert!(v.name.to_str() == Ok("size"));
                v.init.as_int().map_err(|e| e.set_location(v))
            })
            .map(|i| i.into()),
        Ok(42)
    );
}

fn two_fields_graph() -> RecordGraph {
    let mut graph = RecordGraph::new();
    let a = add_record(&mut graph, "A", false, &[]);
    add_field(&mut graph, a, "a", RawInit::Int(5));
    add_field(&mut graph, a, "n", RawInit::String(b"hello".to_vec()));
    graph
}

fn two_fields() -> RecordKeeper {
    keeper(
        "def A { int a = 5; string n = \"hello\"; }",
        two_fields_graph(),
    )
}

#[test]
fn values() {
    let rk = TableGenParser::new()
        .add_source(
            r#"
                def A {
                    int a = 5;
                    string n = "hello";
                }
                "#,
            true,
        )
        .unwrap()
        .parse(Some(two_fields_graph()))
        .expect("valid tablegen");
    let a = rk.def("A").expect("def A exists");
    let values = a.values();
    let mut count = 0;
    let mut counted = values.clone();
    while counted.next().is_some() {
        count += 1;
    }
    assert_eq!(count, 2);
    let mut values = values;
    while let Some(v) = values.next() {
        match v.init {
            TypedInit::Int(i) => {
                assert_eq!(v.name.to_str(), Ok("a"));
                assert_eq!(i64::from(i), 5);
            }
            TypedInit::String(i) => {
                assert_eq!(v.name.to_str(), Ok("n"));
                assert_eq!(i.to_str(), Ok("hello"));
            }
            _ => panic!("unexpected type"),
        }
    }
}

#[test]
fn values_come_in_declaration_order() {
    let rk = two_fields();
    let a = rk.def("A").unwrap();
    let mut values = a.values();
    let first = values.next().expect("two fields");
    let second = values.next().expect("two fields");
    assert!(values.next().is_none());
    assert!(values.next().is_none());
    assert_eq!(first.name.to_str(), Ok("a"));
    assert_eq!(second.name.to_str(), Ok("n"));
    assert_eq!(TypedInit::from(second).variant_name(), "String");
}

#[test]
fn round_trip_of_int_and_string() {
    let mut graph = RecordGraph::new();
    let d = add_record(&mut graph, "D", false, &[]);
    add_field(&mut graph, d, "i", RawInit::Int(5));
    add_field(&mut graph, d, "s", RawInit::String(b"hi".to_vec()));
    let rk = keeper("def D { int i = 5; string s = \"hi\"; }", graph);
    let d = rk.def("D").unwrap();
    assert_eq!(d.int_value("i"), Ok(5));
    assert_eq!(d.string_value("s"), Ok("hi".to_string()));
    assert_eq!(d.str_value("s"), Ok("hi"));
}

#[test]
fn missing_field() {
    let rk = two_fields();
    let a = rk.def("A").unwrap();
    let e = a.value("nonexistent").err().expect("no such field");
    assert_eq!(
        e.error(),
        &TableGenError::MissingValue("nonexistent".to_string())
    );
    assert_eq!(e.message(), "expected field nonexistent in record");
    let e = a.int_value("nonexistent").expect_err("no such field");
    assert_eq!(
        e.error(),
        &TableGenError::MissingValue("nonexistent".to_string())
    );
    // Names are compared exactly.
    assert!(a.value("A").is_err());
    assert!(a.value("a ").is_err());
    assert!(a.value("").is_err());
    assert!(a.value("a").is_ok());
}

#[test]
fn mismatch_is_no_missing_field() {
    let rk = two_fields();
    let a = rk.def("A").unwrap();
    let e = a.int_value("n").expect_err("n is a string");
    assert_eq!(
        e.error(),
        &TableGenError::InitConversion {
            from: "String",
            to: "i64",
            cause: None,
        }
    );
    assert_eq!(e.message(), "invalid conversion from String to i64");
    let e = a.string_value("a").expect_err("a is an integer");
    assert_eq!(
        e.error(),
        &TableGenError::InitConversion {
            from: "Int",
            to: "alloc::string::String",
            cause: None,
        }
    );
    assert_eq!(
        e.message(),
        "invalid conversion from Int to alloc::string::String"
    );
    assert!(a.bit_value("a").is_err());
    assert!(a.bits_value("a").is_err());
    assert!(a.def_value("a").is_err());
    assert!(a.list_value("a").is_err());
    assert!(a.dag_value("a").is_err());
    assert!(a.str_value("a").is_err());
    assert!(a.code_value("a").is_err());
    assert!(a.code_str_value("a").is_err());
}

#[test]
fn errors_are_located() {
    let mut graph = RecordGraph::new();
    let a = graph
        .add_record(
            b"A".to_vec(),
            false,
            false,
            Vec::new(),
            SourceLocation::from_raw(7),
        )
        .unwrap();
    let five = graph.add_init(RawInit::Int(5)).unwrap();
    graph
        .add_value(a, b"i".to_vec(), five, SourceLocation::from_raw(11))
        .unwrap();
    let rk = keeper("def A { int i = 5; }", graph);
    let a = rk.def("A").unwrap();
    // A missing field is reported at the record.
    let e = a.value("j").err().expect("no such field");
    assert_eq!(e.location(), &SourceLocation::from_raw(7));
    // A field of another type is reported at the field.
    let e = a.string_value("i").expect_err("i is an integer");
    assert_eq!(e.location(), &SourceLocation::from_raw(11));
    assert_eq!(e.location().raw, Some(11));
}

#[test]
fn first_field_of_a_name_wins() {
    let mut graph = RecordGraph::new();
    let a = add_record(&mut graph, "A", false, &[]);
    add_field(&mut graph, a, "x", RawInit::Int(1));
    add_field(&mut graph, a, "x", RawInit::Int(2));
    let rk = keeper("def A { int x = 1; }", graph);
    assert_eq!(rk.def("A").unwrap().int_value("x"), Ok(1));
}

#[test]
fn subclass_through_other_classes() {
    let mut graph = RecordGraph::new();
    let base = add_record(&mut graph, "Base", true, &[]);
    let mid = add_record(&mut graph, "Mid", true, &[base]);
    let other = add_record(&mut graph, "Other", true, &[]);
    let leaf = add_record(&mut graph, "Leaf", true, &[mid, other]);
    add_record(&mut graph, "D", false, &[leaf]);
    add_record(&mut graph, "E", false, &[]);
    let superclasses = graph.record(4).superclasses.clone();
    assert_eq!(superclasses, vec![base, mid, other, leaf]);
    let rk = keeper("...", graph);
    let d = rk.def("D").unwrap();
    assert!(d.subclass_of("Leaf"));
    assert!(d.subclass_of("Mid"));
    assert!(d.subclass_of("Base"));
    assert!(d.subclass_of("Other"));
    // A record is no subclass of itself, nor of a name that only looks alike.
    assert!(!d.subclass_of("D"));
    assert!(!d.subclass_of("base"));
    assert!(!d.subclass_of("Bas"));
    assert!(!d.subclass_of(""));
    let e = rk.def("E").unwrap();
    assert!(!e.subclass_of("Base"));
    let mid = rk.class("Mid").unwrap();
    assert!(mid.subclass_of("Base"));
    assert!(!mid.subclass_of("Leaf"));
    assert!(!mid.subclass_of("Other"));
}

#[test]
fn anonymous_record_answers_like_any_other() {
    let mut graph = RecordGraph::new();
    let a = add_record(&mut graph, "A", true, &[]);
    let anon = graph
        .add_record(
            b"anonymous_0".to_vec(),
            false,
            true,
            vec![a],
            SourceLocation::none(),
        )
        .unwrap();
    add_field(&mut graph, anon, "i", RawInit::Int(3));
    add_record(&mut graph, "Named", false, &[a]);
    let rk = keeper("class A; def : A { int i = 3; } def Named : A;", graph);
    let anon = find_def(&rk, |d| d.anonymous()).expect("there is one");
    assert!(anon.anonymous());
    assert!(anon.subclass_of("A"));
    assert_eq!(anon.int_value("i"), Ok(3));
    assert!(anon.values().next().is_some());
    assert!(!rk.def("Named").unwrap().anonymous());
    assert!(!rk.class("A").unwrap().anonymous());
}

#[test]
fn name_that_is_not_text() {
    let mut graph = RecordGraph::new();
    graph
        .add_record(
            vec![b'A', 0xc0],
            false,
            false,
            Vec::new(),
            SourceLocation::from_raw(3),
        )
        .unwrap();
    let rk = keeper("...", graph);
    let (name, record) = rk.defs().next().expect("one def");
    let utf8 = std::str::from_utf8(&[b'A', 0xc0]).expect_err("not UTF-8");
    assert_eq!(name, Err(utf8));
    let e = record.name().expect_err("not UTF-8");
    assert_eq!(e.error(), &TableGenError::InvalidUtf8Str(utf8));
    assert_eq!(e.location(), &SourceLocation::from_raw(3));
    assert_eq!(e.message(), "invalid UTF-8 string");
}

#[test]
fn numbers_of_records() {
    let mut graph = RecordGraph::new();
    add_record(&mut graph, "A", true, &[]);
    add_record(&mut graph, "D", false, &[0]);
    let rk = keeper("class A; def D: A;", graph);
    assert_eq!(rk.class("A").unwrap().to_raw(), 0);
    assert_eq!(rk.def("D").unwrap().to_raw(), 1);
    assert_eq!(Record::from_raw(&rk, 1).name(), Ok("D"));
}
