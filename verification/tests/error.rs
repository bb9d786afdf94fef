use scrap::error::{Error, ErrorKind};

#[test]
fn causes_form_a_chain() {
    let first = Error::with_detail(ErrorKind::NotFound, "no ", "file");
    let err = first.context("cannot read").context("cannot start");
    assert_eq!((err.kind, err.message.as_str()), (ErrorKind::Other, "cannot start"));
    let cause = err.cause.unwrap();
    assert_eq!((cause.kind, cause.message.as_str()), (ErrorKind::Other, "cannot read"));
    let cause = cause.cause.unwrap();
    assert_eq!((cause.kind, cause.message.as_str()), (ErrorKind::NotFound, "no file"));
    assert!(cause.cause.is_none());
}

#[test]
fn plain_errors_have_no_cause() {
    for err in [Error::other("x"), Error::not_found(), Error::would_block()] {
        assert!(err.cause.is_none());
    }
}
