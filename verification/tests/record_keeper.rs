use tblgen::error::SourceLocation;
use tblgen::raw::RecordGraph;
use tblgen::record_keeper::{IsClass, IsDef, NamedRecordIter, RecordIter};
use tblgen::{RecordKeeper, TableGenParser};

fn add_record(graph: &mut RecordGraph, name: &str, class: bool, parents: &[usize]) -> usize {
    graph
        .add_record(
            name.as_bytes().to_vec(),
            class,
            false,
            parents.to_vec(),
            SourceLocation::none(),
        )
        .expect("the parents are classes")
}

fn keeper(source: &str, graph: RecordGraph) -> RecordKeeper {
    TableGenParser::new()
        .add_source(source, true)
        .unwrap()
        .parse(Some(graph))
        .expect("valid tablegen")
}

fn class_names<'a>(mut iter: NamedRecordIter<'a, IsClass>) -> Vec<&'a str> {
    let mut names = Vec::new();
    while let Some(i) = iter.next() {
        assert!(i.1.name().unwrap() == i.0.unwrap());
        names.push(i.0.unwrap());
    }
    names
}

fn def_names<'a>(mut iter: NamedRecordIter<'a, IsDef>) -> Vec<&'a str> {
    let mut names = Vec::new();
    while let Some(i) = iter.next() {
        assert!(i.1.name().unwrap() == i.0.unwrap());
        names.push(i.0.unwrap());
    }
    names
}

fn record_names(mut iter: RecordIter) -> Vec<String> {
    let mut names = Vec::new();
    while let Some(i) = iter.next() {
        names.push(i.name().unwrap().to_string());
    }
    names
}

#[test]
fn classes_and_defs() {
    let mut graph = RecordGraph::new();
    let a = add_record(&mut graph, "A", true, &[]);
    let b = add_record(&mut graph, "B", true, &[]);
    let c = add_record(&mut graph, "C", true, &[]);
    add_record(&mut graph, "D1", false, &[a]);
    add_record(&mut graph, "D2", false, &[b]);
    add_record(&mut graph, "D3", false, &[c]);
    let rk = TableGenParser::new()
        .add_source(
            r#"
                class A;
                class B;
                class C;
                def D1: A;
                def D2: B;
                def D3: C;
                "#,
            true,
        )
        .unwrap()
        .parse(Some(graph))
        .expect("valid tablegen");
    let mut classes = Vec::new();
    let mut iter = rk.classes();
    while let Some(i) = iter.next() {
        assert!(i.1.name().unwrap() == i.0.unwrap());
        classes.push(i.0.unwrap());
    }
    let mut defs = Vec::new();
    let mut iter = rk.defs();
    while let Some(i) = iter.next() {
        assert!(i.1.name().unwrap() == i.0.unwrap());
        defs.push(i.0.unwrap());
    }
    assert!(classes.into_iter().eq(["A", "B", "C"]));
    assert!(defs.into_iter().eq(["D1", "D2", "D3"]));
}

#[test]
fn derived_defs() {
    let mut graph = RecordGraph::new();
    let a = add_record(&mut graph, "A", true, &[]);
    let b = add_record(&mut graph, "B", true, &[]);
    let c = add_record(&mut graph, "C", true, &[]);
    add_record(&mut graph, "D1", false, &[a]);
    add_record(&mut graph, "D2", false, &[a, b]);
    add_record(&mut graph, "D3", false, &[b, c]);
    let rk = TableGenParser::new()
        .add_source(
            r#"
                class A;
                class B;
                class C;

                def D1: A;
                def D2: A, B;
                def D3: B, C;
                "#,
            true,
        )
        .unwrap()
        .parse(Some(graph))
        .expect("valid tablegen");
    let a = rk.all_derived_definitions("A");
    assert!(record_names(a).into_iter().eq(["D1", "D2"]));
    let b = rk.all_derived_definitions("B");
    assert!(record_names(b).into_iter().eq(["D2", "D3"]));
}

#[test]
fn single() {
    let mut graph = RecordGraph::new();
    add_record(&mut graph, "A", true, &[]);
    add_record(&mut graph, "D1", false, &[]);
    let rk = TableGenParser::new()
        .add_source(
            r#"
                class A;
                def D1;
                "#,
            true,
        )
        .unwrap()
        .parse(Some(graph))
        .expect("valid tablegen");
    assert_eq!(rk.class("A").expect("class exists").name().unwrap(), "A");
    assert_eq!(rk.def("D1").expect("def exists").name().unwrap(), "D1");
}

#[test]
fn one_class_and_one_def() {
    let mut graph = RecordGraph::new();
    let a = add_record(&mut graph, "A", true, &[]);
    add_record(&mut graph, "D", false, &[a]);
    let rk = keeper("class A; def D: A;", graph);
    assert_eq!(class_names(rk.classes()), vec!["A"]);
    assert_eq!(def_names(rk.defs()), vec!["D"]);
    assert_eq!(record_names(rk.all_derived_definitions("A")), vec!["D"]);
    assert_eq!(rk.classes().next().unwrap().0, Ok("A"));
    assert_eq!(rk.defs().next().unwrap().0, Ok("D"));
    assert_eq!(
        rk.all_derived_definitions("A").next().unwrap().name(),
        Ok("D")
    );
}

#[test]
fn classes_and_defs_are_looked_up_apart() {
    let mut graph = RecordGraph::new();
    add_record(&mut graph, "A", true, &[]);
    add_record(&mut graph, "D", false, &[]);
    let rk = keeper("class A; def D;", graph);
    assert!(rk.class("A").is_some());
    assert!(rk.def("A").is_none());
    assert!(rk.def("D").is_some());
    assert!(rk.class("D").is_none());
    assert!(rk.class("a").is_none());
    assert!(rk.class("").is_none());
    assert!(rk.def("D ").is_none());
}

#[test]
fn first_record_of_a_name_is_found() {
    let mut graph = RecordGraph::new();
    let a = add_record(&mut graph, "A", true, &[]);
    add_record(&mut graph, "D", false, &[a]);
    add_record(&mut graph, "D", false, &[]);
    let rk = keeper("...", graph);
    assert!(rk.def("D").unwrap().subclass_of("A"));
    assert_eq!(def_names(rk.defs()), vec!["D", "D"]);
}

#[test]
fn derived_through_other_classes_in_declaration_order() {
    let mut graph = RecordGraph::new();
    let base = add_record(&mut graph, "Base", true, &[]);
    add_record(&mut graph, "Z", false, &[base]);
    let mid = add_record(&mut graph, "Mid", true, &[base]);
    add_record(&mut graph, "Y", false, &[mid]);
    add_record(&mut graph, "X", false, &[]);
    add_record(&mut graph, "W", false, &[base, mid]);
    let rk = keeper("...", graph);
    assert_eq!(
        record_names(rk.all_derived_definitions("Base")),
        vec!["Z", "Y", "W"]
    );
    assert_eq!(
        record_names(rk.all_derived_definitions("Mid")),
        vec!["Y", "W"]
    );
    // Classes are not listed, and neither is anything for a name that no class has.
    assert!(record_names(rk.all_derived_definitions("X")).is_empty());
    assert!(record_names(rk.all_derived_definitions("Nothing")).is_empty());
    assert!(rk.all_derived_definitions("Nothing").next().is_none());
}

#[test]
fn iterators_restart_from_a_clone() {
    let mut graph = RecordGraph::new();
    add_record(&mut graph, "A", true, &[]);
    add_record(&mut graph, "B", true, &[]);
    let rk = keeper("class A; class B;", graph);
    let mut classes = rk.classes();
    let start = classes.clone();
    assert_eq!(classes.next().map(|c| c.0), Some(Ok("A")));
    let middle = classes.clone();
    assert_eq!(classes.next().map(|c| c.0), Some(Ok("B")));
    assert!(classes.next().is_none());
    assert!(classes.next().is_none());
    assert_eq!(class_names(start), vec!["A", "B"]);
    assert_eq!(class_names(middle), vec!["B"]);
    assert!(rk.defs().next().is_none());
}

#[test]
fn keeper_keeps_its_parser() {
    let graph = RecordGraph::new();
    let parser = TableGenParser::new().add_source("class A;", true).unwrap();
    let expected = TableGenParser::new().add_source("class A;", true).unwrap();
    let rk = parser.parse(Some(graph)).unwrap();
    assert_eq!(rk.parser(), &expected);
    assert_eq!(rk.raw().num_records(), 0);
    assert!(rk.classes().next().is_none());
}
