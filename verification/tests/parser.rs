use tblgen::error::{find_nul, TableGenError};
use tblgen::raw::RecordGraph;
use tblgen::{Source, TableGenParser};

#[test]
fn new_parser_is_empty() {
    let parser = TableGenParser::new();
    assert!(parser.source_list().is_empty());
    assert!(parser.search_path_list().is_empty());
    assert_eq!(parser, TableGenParser::default());
}

#[test]
fn sources_and_paths_are_kept_in_order() {
    let parser = TableGenParser::new()
        .add_source("class A;", true)
        .unwrap()
        .add_include_path("first", true)
        .unwrap()
        .add_source_file("defs.td", true)
        .unwrap()
        .add_include_path("second", true)
        .unwrap()
        .add_source_raw(b"def D: A;\0", true)
        .unwrap();
    assert_eq!(
        parser.source_list(),
        &vec![
            Source::Text(b"class A;".to_vec()),
            Source::File("defs.td".to_string()),
            Source::Text(b"def D: A;".to_vec()),
        ]
    );
    assert_eq!(
        parser.search_path_list(),
        &vec!["first".to_string(), "second".to_string()]
    );
}

#[test]
fn source_with_nul_byte_is_refused() {
    let e = TableGenParser::new()
        .add_source("class A;\0def D;", true)
        .expect_err("NUL byte");
    match e {
        TableGenError::InvalidSourceString(nul) => {
            assert_eq!(nul.nul_position(), 8);
            assert_eq!(nul.into_vec(), b"class A;\0def D;".to_vec());
        }
        other => panic!("{:?}", other),
    }
    // The first NUL byte is reported, and the compiler is not asked.
    let e = TableGenParser::new()
        .add_source("\0\0", false)
        .expect_err("NUL byte");
    match e {
        TableGenError::InvalidSourceString(nul) => assert_eq!(nul.nul_position(), 0),
        other => panic!("{:?}", other),
    }
}

#[test]
fn refused_by_the_compiler() {
    assert_eq!(
        TableGenParser::new().add_source("class A;", false),
        Err(TableGenError::InvalidSource)
    );
    assert_eq!(
        TableGenParser::new().add_source_file("missing.td", false),
        Err(TableGenError::InvalidSource)
    );
    assert_eq!(
        TableGenParser::new().add_include_path("missing", false),
        Err(TableGenError::InvalidSource)
    );
    assert_eq!(
        TableGenParser::new().add_source_raw(b"class A;\0", false),
        Err(TableGenError::InvalidSource)
    );
}

#[test]
fn raw_source_has_to_end_with_its_only_nul_byte() {
    assert_eq!(
        TableGenParser::new().add_source_raw(b"class A;", true),
        Err(TableGenError::InvalidSource)
    );
    assert_eq!(
        TableGenParser::new().add_source_raw(b"class\0A;\0", true),
        Err(TableGenError::InvalidSource)
    );
    assert_eq!(
        TableGenParser::new().add_source_raw(b"", true),
        Err(TableGenError::InvalidSource)
    );
    let parser = TableGenParser::new().add_source_raw(b"\0", true).unwrap();
    assert_eq!(parser.source_list(), &vec![Source::Text(Vec::new())]);
}

#[test]
fn empty_source_is_fine() {
    let parser = TableGenParser::new().add_source("", true).unwrap();
    assert_eq!(parser.source_list(), &vec![Source::Text(Vec::new())]);
}

#[test]
fn failed_parse() {
    let e = TableGenParser::new()
        .add_source("class A", true)
        .unwrap()
        .parse(None)
        .err()
        .expect("the compiler found the code to be wrong");
    assert_eq!(e, TableGenError::Parse);
}

#[test]
fn parse_hands_the_graph_to_the_keeper() {
    let mut graph = RecordGraph::new();
    graph
        .add_record(
            b"A".to_vec(),
            true,
            false,
            Vec::new(),
            tblgen::error::SourceLocation::none(),
        )
        .unwrap();
    let rk = TableGenParser::new()
        .add_source("class A;", true)
        .unwrap()
        .parse(Some(graph))
        .unwrap();
    assert_eq!(rk.raw().num_records(), 1);
    assert!(rk.class("A").is_some());
}

#[test]
fn first_nul_byte() {
    assert_eq!(find_nul(b""), None);
    assert_eq!(find_nul(b"abc"), None);
    assert_eq!(find_nul(b"\0"), Some(0));
    assert_eq!(find_nul(b"ab\0c\0"), Some(2));
}
