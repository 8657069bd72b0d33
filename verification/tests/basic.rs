//! The arithmetic helper and the top-level failure type.

use cmdparse::error::Error;

#[test]
fn it_works() {
    let result = cmdparse::add(2, 2);
    assert_eq!(result, 4);
}

#[test]
fn error_message_reports_text() {
    let e = Error::ParseError(String::from("bad input"));
    assert_eq!(e.message(), "bad input");
}
