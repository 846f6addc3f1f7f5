use std::io::ErrorKind;
use utf8_reader::errors::Error;

#[test]
fn io_error_converts_to_io_variant() {
    let e = Error::from(std::io::Error::new(ErrorKind::BrokenPipe, "pipe"));
    match e {
        Error::IoError(inner) => assert_eq!(inner.kind(), ErrorKind::BrokenPipe),
        other => panic!("unexpected variant: {:?}", other),
    }
}

#[test]
fn io_error_converts_through_into() {
    let e: Error = std::io::Error::new(ErrorKind::TimedOut, "late").into();
    assert!(matches!(e, Error::IoError(ref inner) if inner.kind() == ErrorKind::TimedOut));
}

#[test]
fn variants_have_debug_text() {
    assert_eq!(format!("{:?}", Error::EofError), "EofError");
    assert_eq!(format!("{:?}", Error::Other("x".to_string())), "Other(\"x\")");
    assert_eq!(format!("{:?}", Error::Utf8Error("Byte".to_string())), "Utf8Error(\"Byte\")");
}

#[test]
fn root_exports_name_the_same_items() {
    let e: utf8_reader::Error = Error::EofError;
    assert!(matches!(e, Error::EofError));
    assert!(matches!(utf8_reader::read_utf(&[0x41]), Ok(('A', 0))));
}
