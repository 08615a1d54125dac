use std::io;

use rota_lb::error::{describe_invalid_address, describe_io_error};
use rota_lb::{BackendError, Error, FactoryError, InvalidAddress, IoError, NoBackends};

#[test]
fn messages_name_what_failed() {
    assert_eq!(
        Error::invalid_address("a\"b".to_string(), "empty host").message(),
        "invalid dial address \"a\\\"b\": empty host"
    );
    assert_eq!(Error::no_backends().message(), "no backends available — pool is empty");
    assert_eq!(Error::factory("x".to_string()).message(), "backend factory failed: x");
    assert_eq!(Error::backend("y".to_string()).message(), "backend operation failed: y");
    assert_eq!(
        Error::backend_with("TLS handshake failed", "eof").message(),
        "backend operation failed: TLS handshake failed: eof"
    );
    let e = Error::from(io::Error::new(io::ErrorKind::Other, "pipe broke"));
    assert_eq!(e.message(), "i/o error: pipe broke");
}

#[test]
fn parts_are_put_together() {
    assert_eq!(describe_invalid_address("'q'", "r"), "invalid dial address 'q': r");
    assert_eq!(describe_io_error("d"), "i/o error: d");
}

#[test]
fn every_part_converts() {
    let e = Error::from(InvalidAddress { addr: "a".to_string(), reason: "r" });
    assert!(matches!(e, Error::InvalidAddress(_)));
    assert!(matches!(Error::from(NoBackends), Error::NoBackends(_)));
    assert!(matches!(Error::from(FactoryError("f".to_string())), Error::Factory(_)));
    assert!(matches!(Error::from(BackendError("b".to_string())), Error::Backend(_)));
    let io = IoError(io::Error::from(io::ErrorKind::NotFound));
    assert!(matches!(Error::from(io), Error::Io(_)));
}
