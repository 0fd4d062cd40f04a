use tblgen::error::SourceLocation;
use tblgen::raw::{contains_id, RawDagArg, RawInit, RecordGraph};

fn class(graph: &mut RecordGraph, name: &str, parents: &[usize]) -> Option<usize> {
    graph.add_record(
        name.as_bytes().to_vec(),
        true,
        false,
        parents.to_vec(),
        SourceLocation::none(),
    )
}

fn def(graph: &mut RecordGraph, name: &str, parents: &[usize]) -> Option<usize> {
    graph.add_record(
        name.as_bytes().to_vec(),
        false,
        false,
        parents.to_vec(),
        SourceLocation::none(),
    )
}

#[test]
fn new_graph_is_empty() {
    let graph = RecordGraph::new();
    assert_eq!(graph.num_records(), 0);
    assert_eq!(graph.num_inits(), 0);
    assert!(graph.ids(true).is_empty());
    assert!(graph.ids(false).is_empty());
    assert_eq!(graph.find(true, "A"), None);
}

#[test]
fn records_are_numbered_in_order() {
    let mut graph = RecordGraph::new();
    assert_eq!(class(&mut graph, "A", &[]), Some(0));
    assert_eq!(def(&mut graph, "D", &[0]), Some(1));
    assert_eq!(class(&mut graph, "B", &[0]), Some(2));
    assert_eq!(def(&mut graph, "E", &[2, 0]), Some(3));
    assert_eq!(graph.num_records(), 4);
    assert_eq!(graph.ids(true), &vec![0, 2]);
    assert_eq!(graph.ids(false), &vec![1, 3]);
    assert_eq!(graph.find(true, "B"), Some(2));
    assert_eq!(graph.find(false, "B"), None);
    assert_eq!(graph.find(false, "E"), Some(3));
    assert_eq!(graph.record(3).name, b"E".to_vec());
    assert!(!graph.record(3).class);
    assert_eq!(graph.record(3).parents, vec![2, 0]);
    assert!(graph.record_values(3).is_empty());
}

#[test]
fn superclasses_are_collected_once_each() {
    let mut graph = RecordGraph::new();
    let a = class(&mut graph, "A", &[]).unwrap();
    let b = class(&mut graph, "B", &[a]).unwrap();
    let c = class(&mut graph, "C", &[a]).unwrap();
    let d = def(&mut graph, "D", &[b, c, a, b]).unwrap();
    assert!(graph.record(a).superclasses.is_empty());
    assert_eq!(graph.record(b).superclasses, vec![a]);
    assert_eq!(graph.record(d).superclasses, vec![a, b, c]);
    assert_eq!(graph.record(d).parents, vec![b, c, a, b]);
}

#[test]
fn parents_have_to_be_classes() {
    let mut graph = RecordGraph::new();
    let a = class(&mut graph, "A", &[]).unwrap();
    let d = def(&mut graph, "D", &[a]).unwrap();
    // A definition is no parent, and neither is a record that is not there yet.
    assert_eq!(def(&mut graph, "E", &[d]), None);
    assert_eq!(def(&mut graph, "E", &[a, 2]), None);
    assert_eq!(class(&mut graph, "B", &[2]), None);
    assert!(!graph.parents_ok(&vec![a, d]));
    assert!(graph.parents_ok(&vec![a, a]));
    assert!(graph.parents_ok(&Vec::new()));
    // Nothing was added.
    assert_eq!(graph.num_records(), 2);
    assert_eq!(graph.find(false, "E"), None);
    assert_eq!(graph.ids(false), &vec![d]);
}

#[test]
fn values_have_to_name_what_is_there() {
    let mut graph = RecordGraph::new();
    let d = def(&mut graph, "D", &[]).unwrap();
    assert_eq!(graph.add_init(RawInit::Int(1)), Some(0));
    assert_eq!(graph.add_init(RawInit::Bit(0)), Some(1));
    assert_eq!(graph.add_init(RawInit::Bit(1)), Some(2));
    assert_eq!(graph.add_init(RawInit::Bit(2)), None);
    assert_eq!(graph.add_init(RawInit::Bit(-1)), None);
    assert_eq!(graph.add_init(RawInit::Bits(vec![1, 2, 1])), Some(3));
    // An integer is no bit.
    assert_eq!(graph.add_init(RawInit::Bits(vec![1, 0])), None);
    assert_eq!(graph.add_init(RawInit::Bits(vec![4])), None);
    assert_eq!(graph.add_init(RawInit::Bits(Vec::new())), Some(4));
    assert_eq!(graph.add_init(RawInit::List(vec![0, 3, 4])), Some(5));
    // A list cannot hold itself.
    assert_eq!(graph.add_init(RawInit::List(vec![6])), None);
    assert_eq!(graph.add_init(RawInit::Def(d)), Some(6));
    assert_eq!(graph.add_init(RawInit::Def(d + 1)), None);
    let arg = |value| RawDagArg { name: None, value };
    assert_eq!(graph.add_init(RawInit::Dag(d, vec![arg(0), arg(6)])), Some(7));
    assert_eq!(graph.add_init(RawInit::Dag(d + 1, Vec::new())), None);
    assert_eq!(graph.add_init(RawInit::Dag(d, vec![arg(8)])), None);
    assert_eq!(graph.add_init(RawInit::String(vec![0xff])), Some(8));
    assert_eq!(graph.add_init(RawInit::Code(Vec::new())), Some(9));
    assert_eq!(graph.add_init(RawInit::Unknown), Some(10));
    assert_eq!(graph.num_inits(), 11);
    assert!(graph.init_ok(&RawInit::List(vec![10])));
    assert!(!graph.init_ok(&RawInit::List(vec![11])));
    assert!(matches!(graph.init(3), RawInit::Bits(bits) if bits == &vec![1, 2, 1]));
}

#[test]
fn fields_are_added_to_their_record() {
    let mut graph = RecordGraph::new();
    let d = def(&mut graph, "D", &[]).unwrap();
    let e = def(&mut graph, "E", &[]).unwrap();
    let one = graph.add_init(RawInit::Int(1)).unwrap();
    let location = SourceLocation::from_raw(12);
    assert_eq!(graph.add_value(e, b"x".to_vec(), one, location), Some(0));
    assert_eq!(graph.add_value(e, b"y".to_vec(), one, location), Some(1));
    assert_eq!(graph.add_value(d, b"z".to_vec(), one, location), Some(0));
    // No such record, no such value.
    assert_eq!(graph.add_value(2, b"x".to_vec(), one, location), None);
    assert_eq!(graph.add_value(d, b"x".to_vec(), 99, location), None);
    assert_eq!(graph.record_values(d).len(), 1);
    assert_eq!(graph.record_values(e).len(), 2);
    let y = &graph.record_values(e)[1];
    assert_eq!(y.value, one);
    assert_eq!(y.loc, location);
    assert!(matches!(graph.init(y.name), RawInit::String(name) if name == b"y"));
    // Each field brought its name with it.
    assert_eq!(graph.num_inits(), 4);
}

#[test]
fn names_that_are_not_text_are_kept_but_not_found() {
    let mut graph = RecordGraph::new();
    let odd = graph
        .add_record(vec![0xff], true, false, Vec::new(), SourceLocation::none())
        .unwrap();
    let a = class(&mut graph, "A", &[odd]).unwrap();
    assert_eq!(graph.ids(true), &vec![odd, a]);
    assert_eq!(graph.find(true, "A"), Some(a));
    assert_eq!(graph.record(a).superclasses, vec![odd]);
    assert_eq!(graph.record(odd).name, vec![0xff]);
}

#[test]
fn contains() {
    assert!(contains_id(&vec![3, 1, 2], 1));
    assert!(!contains_id(&vec![3, 1, 2], 0));
    assert!(!contains_id(&Vec::new(), 0));
}
