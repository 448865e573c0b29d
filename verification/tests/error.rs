use ioq::error::{error_string, message_flags, Error, ErrorKind, MESSAGE_BYTES};
use ioq::handle::Handle;

#[test]
fn os_error_keeps_its_code() {
    let e = Error::from_os_error_code(10048);
    assert_eq!(e.os_error_code(), Some(10048));
    assert_eq!(e.kind(), None);
    assert_eq!(e.description(), "os error");
    assert_eq!(Error::os_error(5).os_error_code(), Some(5));
}

#[test]
fn library_error_keeps_kind_and_text() {
    let e = Error::new(ErrorKind::NotImplemented, String::from("later"));
    assert_eq!(e.os_error_code(), None);
    assert_eq!(e.kind(), Some(ErrorKind::NotImplemented));
    assert_eq!(e.description(), "later");
}

#[test]
fn unknown_and_not_implemented() {
    let u = Error::unknown();
    assert_eq!(u.kind(), Some(ErrorKind::Unknown));
    assert_eq!(u.description(), "Unknown error");
    let n = Error::not_implemented();
    assert_eq!(n.kind(), Some(ErrorKind::NotImplemented));
    assert_eq!(n.description(), "Functionality not implemented");
}

#[test]
fn error_string_is_what_the_system_wrote() {
    let mut buffer = [0u8; MESSAGE_BYTES];
    buffer[..13].copy_from_slice(b"Access denied");
    assert_eq!(error_string(&buffer, 13, 0), b"Access denied".to_vec());
    assert_eq!(error_string(&buffer, 6, 122), b"Access".to_vec());
    assert_eq!(error_string(&buffer, 0, 0), Vec::<u8>::new());
}

#[test]
fn error_string_says_when_the_buffer_was_too_small() {
    let buffer = [0u8; MESSAGE_BYTES];
    assert_eq!(error_string(&buffer, 0, 122), b"[MESSAGE buffer not large enough]".to_vec());
    assert_eq!(message_flags(), 0x12ff);
}

#[test]
fn handles_compare_by_number() {
    let a = Handle::from_raw(4);
    let b = Handle::from_raw(9);
    assert_eq!(a.to_raw(), 4);
    assert_eq!(a.to_usize(), 4);
    assert_eq!(a, Handle::from_raw(4));
    assert_ne!(a, b);
    assert!(a < b);
    assert!(a.precedes(&b));
    assert!(!b.precedes(&a));
    assert!(a.same(&Handle::from_raw(4)));
    assert!(!a.same(&b));
    assert_eq!(a.max(b), b);
}
