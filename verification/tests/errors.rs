use gnunet::error::{Error, MsgError, ResultError};
use std::io::ErrorKind;

#[test]
fn result_error_keeps_code_and_text() {
    let e = ResultError::new(99999, String::from("not found"));
    assert_eq!(e.code, 99999);
    assert_eq!(e.message(), "not found");
}

#[test]
fn msg_error_keeps_its_text() {
    let e = MsgError::new(String::from("broken"));
    assert_eq!(e.message(), "broken");
}

#[test]
fn errors_convert() {
    let e: Error = std::io::Error::from(ErrorKind::ConnectionReset).into();
    assert_eq!(e.io_kind(), Some(ErrorKind::ConnectionReset));
    let e: Error = ResultError::new(1, String::from("exists")).into();
    assert_eq!(e.io_kind(), None);
    match e {
        Error::Result(r) => assert_eq!(r.code, 1),
        Error::Io(_) => panic!("not an I/O error"),
    }
}

#[test]
fn error_text() {
    let e: Error = ResultError::new(1, String::from("exists")).into();
    assert_eq!(e.message(), "unsuccessful result: exists");
    let e: Error = ResultError::new(7, String::new()).into();
    assert_eq!(e.message(), "unsuccessful result: ");
    let io = std::io::Error::from(ErrorKind::ConnectionReset);
    let expected = format!("I/O error: {}", io);
    let e: Error = io.into();
    assert_eq!(e.message(), expected);
    assert!(e.message().len() > "I/O error: ".len());
}
