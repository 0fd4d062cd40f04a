use tblgen::error::{
    join_pieces, EncodingError, Error, Message, NulError, SourceError, SourceInfo, SourceLoc, SourceLocation,
    TableGenError, WithLocation,
};

fn report(pieces: &[&[u8]], printed: bool) -> SourceInfo {
    SourceInfo {
        pieces: pieces.iter().map(|piece| piece.to_vec()).collect(),
        printed,
    }
}

#[test]
fn messages() {
    assert_eq!(
        TableGenError::InvalidSource.message(),
        "invalid TableGen source"
    );
    assert_eq!(
        TableGenError::InvalidSourceString(NulError::check(b"a\0".to_vec()).unwrap_err()).message(),
        "invalid TableGen source"
    );
    let utf8 = std::str::from_utf8(&[0xff]).expect_err("not UTF-8");
    assert_eq!(
        TableGenError::InvalidUtf8Str(utf8).message(),
        "invalid UTF-8 string"
    );
    let from_utf8 = String::from_utf8(vec![0xff]).expect_err("not UTF-8");
    assert_eq!(
        TableGenError::InvalidUtf8String(from_utf8).message(),
        "invalid UTF-8 string"
    );
    assert_eq!(
        TableGenError::Parse.message(),
        "failed to parse TableGen source"
    );
    assert_eq!(
        TableGenError::MissingValue("size".to_string()).message(),
        "expected field size in record"
    );
    assert_eq!(
        TableGenError::MissingDef("D".to_string()).message(),
        "expected def D"
    );
    assert_eq!(
        TableGenError::MissingClass("C".to_string()).message(),
        "expected class C"
    );
    assert_eq!(
        TableGenError::InitConversion {
            from: "Int",
            to: "alloc::string::String",
            cause: None,
        }
        .message(),
        "invalid conversion from Int to alloc::string::String"
    );
    assert_eq!(
        TableGenError::InvalidSourceLocation.message(),
        "invalid source location"
    );
    let utf8 = std::str::from_utf8(&[0xff]).expect_err("not UTF-8");
    assert_eq!(EncodingError::Str(utf8).message(), "invalid UTF-8 string");
    assert_eq!(
        TableGenError::InitConversion {
            from: "Code",
            to: "&str",
            cause: Some(EncodingError::Str(utf8)),
        }
        .message(),
        "invalid conversion from Code to &str"
    );
}

#[test]
fn nul_error_keeps_position_and_bytes() {
    let e = NulError::check(b"ab\0c\0".to_vec()).expect_err("NUL byte");
    assert_eq!(e.nul_position(), 2);
    assert_eq!(e.into_vec(), b"ab\0c\0".to_vec());
    assert_eq!(NulError::check(b"abc".to_vec()), Ok(b"abc".to_vec()));
    assert_eq!(NulError::check(Vec::new()), Ok(Vec::new()));
}

#[test]
fn new_error_has_location_and_plain_message() {
    let e = SourceError::new(SourceLocation::from_raw(4), TableGenError::Parse);
    assert_eq!(e.location(), &SourceLocation::from_raw(4));
    assert_eq!(e.error(), &TableGenError::Parse);
    assert_eq!(e.message(), "failed to parse TableGen source");
    assert_ne!(SourceLocation::from_raw(4), SourceLocation::none());
    assert_eq!(SourceLocation::none().raw, None);
}

#[test]
fn with_location() {
    let e = TableGenError::Parse.with_location(SourceLocation::from_raw(9));
    assert_eq!(
        e,
        SourceError::new(SourceLocation::from_raw(9), TableGenError::Parse)
    );
    assert_eq!(
        SourceLocation::from_raw(9).source_location(),
        SourceLocation::from_raw(9)
    );
    let e: Error = TableGenError::InvalidSource.into();
    assert_eq!(e.location(), &SourceLocation::none());
    assert_eq!(e.error(), &TableGenError::InvalidSource);
}

#[test]
fn printed_report_becomes_the_message() {
    let e = SourceError::new(SourceLocation::from_raw(1), TableGenError::Parse);
    let info = report(&[b"test.td:3:5: ", b"error: ", b"failed\n", b"  int a;\n"], true);
    let e = e.add_source_info(info);
    assert_eq!(e.message(), "test.td:3:5: error: failed\n  int a;\n");
    // The error itself is still there.
    assert_eq!(e.error(), &TableGenError::Parse);
    assert_eq!(e.location(), &SourceLocation::from_raw(1));
}

#[test]
fn empty_report_is_an_empty_message() {
    let e = SourceError::new(SourceLocation::none(), TableGenError::Parse);
    let e = e.add_source_info(report(&[], true));
    assert_eq!(e.message(), "");
}

#[test]
fn unknown_location_falls_back_to_plain_message() {
    let e = SourceError::new(
        SourceLocation::none(),
        TableGenError::MissingValue("x".to_string()),
    );
    // What was written before the printer gave up does not count.
    let e = e.add_source_info(report(&[b"half a report"], false));
    assert_eq!(
        e.message(),
        "expected field x in record\nfailed to print source information: invalid source location"
    );
    assert_eq!(e.error(), &TableGenError::MissingValue("x".to_string()));
}

#[test]
fn report_that_is_not_text_falls_back_to_plain_message() {
    let e = SourceError::new(SourceLocation::from_raw(2), TableGenError::Parse);
    let e = e.add_source_info(report(&[b"error: ", &[0xff, 0xfe], b"more"], true));
    assert_eq!(
        e.message(),
        "failed to parse TableGen source\nfailed to print source information: invalid UTF-8 string"
    );
}

#[test]
fn create_message() {
    assert_eq!(
        Error::create_message(&report(&[b"a", b"b"], true), "plain"),
        "ab"
    );
    assert_eq!(
        Error::create_message(&report(&[b"a", b"b"], false), "plain"),
        "plain\nfailed to print source information: invalid source location"
    );
}

#[test]
fn pieces_are_joined_in_order() {
    let pieces = vec![b"one ".to_vec(), Vec::new(), "zwei €".as_bytes().to_vec()];
    assert_eq!(join_pieces(&pieces), Ok("one zwei €".to_string()));
    assert_eq!(join_pieces(&Vec::new()), Ok(String::new()));
}

#[test]
fn first_piece_that_is_not_text_is_reported() {
    let pieces = vec![b"ok".to_vec(), vec![b'a', 0xff], vec![0xc0]];
    let utf8 = std::str::from_utf8(&[b'a', 0xff]).expect_err("not UTF-8");
    assert_eq!(utf8.valid_up_to(), 1);
    assert_eq!(join_pieces(&pieces), Err(TableGenError::InvalidUtf8Str(utf8)));
    // A character that is split over two pieces is not put together again.
    let euro = "€".as_bytes();
    let pieces = vec![euro[..1].to_vec(), euro[1..].to_vec()];
    assert!(join_pieces(&pieces).is_err());
}

#[test]
fn set_error_forgets_the_report() {
    let e = SourceError::new(SourceLocation::from_raw(5), TableGenError::Parse)
        .add_source_info(report(&[b"report"], true));
    assert_eq!(e.message(), "report");
    let e = e.set_error(TableGenError::InvalidSource);
    assert_eq!(e.location(), &SourceLocation::from_raw(5));
    assert_eq!(e.error(), &TableGenError::InvalidSource);
    assert_eq!(e.message(), "invalid TableGen source");
}

#[test]
fn set_location_keeps_error_and_report() {
    let e = SourceError::new(SourceLocation::from_raw(5), TableGenError::Parse);
    let e = e.set_location(SourceLocation::from_raw(6));
    assert_eq!(e.location(), &SourceLocation::from_raw(6));
    assert_eq!(e.error(), &TableGenError::Parse);
    let e = e
        .add_source_info(report(&[b"report"], true))
        .set_location(SourceLocation::none());
    assert_eq!(e.location(), &SourceLocation::none());
    assert_eq!(e.message(), "report");
}

#[test]
fn located_errors_can_be_located_again() {
    let inner = SourceError::new(SourceLocation::from_raw(1), TableGenError::Parse)
        .add_source_info(report(&[b"report"], true));
    let outer = inner.with_location(SourceLocation::from_raw(2));
    assert_eq!(outer.location(), &SourceLocation::from_raw(2));
    assert_eq!(outer.error().location(), &SourceLocation::from_raw(1));
    assert_eq!(outer.message(), "report");
}
