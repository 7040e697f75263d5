use openpeer::{Error, ErrorKind, IoError};

#[test]
fn error_display_io() {
    let err = Error::from(IoError::new(ErrorKind::NotFound, "file not found"));
    let s = err.to_string();
    assert!(s.contains("I/O error"));
    assert!(s.contains("file not found"));
}

#[test]
fn error_display_config() {
    let err = Error::Config("missing `external_addr`".into());
    assert!(err.to_string().contains("configuration error"));
    assert!(err.to_string().contains("missing `external_addr`"));
}

#[test]
fn error_display_decode() {
    let err = Error::Decode("unexpected magic bytes".into());
    let s = err.to_string();
    assert!(s.contains("protocol decode error"));
    assert!(s.contains("unexpected magic bytes"));
}

#[test]
fn error_display_encode() {
    let err = Error::Encode("varint overflow".into());
    assert!(err.to_string().contains("protocol encode error"));
}

#[test]
fn error_display_crypto() {
    let err = Error::Crypto("handshake timeout".into());
    assert!(err.to_string().contains("cryptography error"));
}

#[test]
fn error_display_signaling() {
    let err = Error::Signaling("peer not registered".into());
    assert!(err.to_string().contains("signaling error"));
}

#[test]
fn error_display_p2p() {
    let err = Error::P2P("connection reset by peer".into());
    assert!(err.to_string().contains("P2P connection error"));
}

#[test]
fn error_display_transfer() {
    let err = Error::Transfer("checksum mismatch".into());
    assert!(err.to_string().contains("transfer error"));
}

#[test]
fn error_debug_does_not_panic() {
    let err = Error::Config("test".into());
    let s = format!("{:?}", err);
    assert!(s.starts_with("Config"));
}

#[test]
fn error_source_chain_io() {
    let io_err = IoError::new(ErrorKind::PermissionDenied, "perm");
    let err: Error = io_err.into();
    let _ = err.source();
}

#[test]
fn error_from_io() {
    let io_err = IoError::new(ErrorKind::AddrInUse, "port in use");
    let err: Error = io_err.into();
    match err {
        Error::Io(ref e) => {
            assert_eq!(e.kind(), ErrorKind::AddrInUse);
            assert_eq!(e.to_string(), "port in use");
        }
        _ => panic!("expected Error::Io"),
    }
}

#[test]
fn error_send_and_sync() {
    fn assert_send_sync<T: Send + Sync>() {}
    assert_send_sync::<Error>();
}

#[test]
fn error_clone_all_variants() {
    let variants: Vec<Error> = vec![
        Error::Io(IoError::other("io error")),
        Error::Config("cfg".into()),
        Error::Decode("dec".into()),
        Error::Encode("enc".into()),
        Error::Crypto("cry".into()),
        Error::Signaling("sig".into()),
        Error::P2P("p2p".into()),
        Error::Transfer("xfer".into()),
    ];
    for err in variants {
        let cloned = err.clone();
        assert_eq!(err, cloned, "cloned error should equal original");
    }
}

#[test]
fn error_partial_eq_all_variants() {
    let string_cases: Vec<(Error, Error, bool)> = vec![
        (Error::Config("x".into()), Error::Config("x".into()), true),
        (Error::Config("x".into()), Error::Config("y".into()), false),
        (Error::Config("x".into()), Error::Decode("x".into()), false),
    ];
    for (a, b, expect_eq) in string_cases {
        if expect_eq {
            assert_eq!(a, b);
        } else {
            assert_ne!(a, b);
        }
    }
    // Io variants compare by kind only
    let io_cases: Vec<(Error, Error, bool)> = vec![
        (Error::Io(IoError::other("a")), Error::Io(IoError::other("a")), true),
        (
            Error::Io(IoError::new(ErrorKind::NotFound, "nf")),
            Error::Io(IoError::other("x")),
            false,
        ),
    ];
    for (a, b, expect_eq) in io_cases {
        if expect_eq {
            assert_eq!(a, b);
        } else {
            assert_ne!(a, b);
        }
    }
}

#[test]
fn error_display_all_variants() {
    let variants: Vec<Error> = vec![
        Error::Io(IoError::other("other")),
        Error::Config("cfg".into()),
        Error::Decode("dec".into()),
        Error::Encode("enc".into()),
        Error::Crypto("cry".into()),
        Error::Signaling("sig".into()),
        Error::P2P("p2p".into()),
        Error::Transfer("xfer".into()),
    ];
    for err in variants {
        let s = err.to_string();
        assert!(!s.is_empty());
        let prefix = match &err {
            Error::Io(_) => "I/O error",
            Error::Config(_) => "configuration error",
            Error::Decode(_) => "protocol decode error",
            Error::Encode(_) => "protocol encode error",
            Error::Crypto(_) => "cryptography error",
            Error::Signaling(_) => "signaling error",
            Error::P2P(_) => "P2P connection error",
            Error::Transfer(_) => "transfer error",
        };
        assert!(s.contains(prefix), "Display for {:?} should contain '{}'", err, prefix);
    }
}

#[test]
fn error_source_none_for_string_variants() {
    let string_variants = [
        Error::Config("cfg".into()),
        Error::Decode("dec".into()),
        Error::Encode("enc".into()),
        Error::Crypto("cry".into()),
        Error::Signaling("sig".into()),
        Error::P2P("p2p".into()),
        Error::Transfer("xfer".into()),
    ];
    for err in string_variants {
        assert!(
            err.source().is_none(),
            "String variants should have no source, but {:?} has source",
            err
        );
    }
}
