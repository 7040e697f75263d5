//! The unified error type of the library, and the I/O error it carries.
//!
//! `IoError` holds as plain values what an I/O error of the standard library
//! holds for the purposes of this crate: its kind and its message.

use vstd::prelude::*;
use vstd::string::StringExecFns;

verus! {

/// The category of an I/O error, with the variants of the standard library's
/// stable `io::ErrorKind`.
#[derive(Debug, Clone, Copy, PartialEq, Eq, Structural)]
pub enum ErrorKind {
    NotFound,
    PermissionDenied,
    ConnectionRefused,
    ConnectionReset,
    ConnectionAborted,
    NotConnected,
    AddrInUse,
    AddrNotAvailable,
    BrokenPipe,
    AlreadyExists,
    WouldBlock,
    InvalidInput,
    InvalidData,
    TimedOut,
    WriteZero,
    Interrupted,
    Unsupported,
    UnexpectedEof,
    OutOfMemory,
    HostUnreachable,
    NetworkUnreachable,
    NetworkDown,
    NotADirectory,
    IsADirectory,
    DirectoryNotEmpty,
    ReadOnlyFilesystem,
    StaleNetworkFileHandle,
    StorageFull,
    NotSeekable,
    QuotaExceeded,
    FileTooLarge,
    ResourceBusy,
    ExecutableFileBusy,
    Deadlock,
    CrossesDevices,
    TooManyLinks,
    InvalidFilename,
    ArgumentListTooLong,
    Other,
}

/// An I/O error: a kind and a human-readable message.
#[derive(Debug)]
pub struct IoError {
    kind: ErrorKind,
    message: String,
}

impl View for IoError {
    type V = (ErrorKind, Seq<char>);

    closed spec fn view(&self) -> (ErrorKind, Seq<char>) {
        (self.kind, self.message@)
    }
}

/// The view of a result whose error is an `IoError`.
pub open spec fn res_view<T>(r: Result<T, IoError>) -> Result<T, (ErrorKind, Seq<char>)> {
    match r {
        Ok(v) => Ok(v),
        Err(e) => Err(e@),
    }
}

impl IoError {
    /// An error of the given kind with the given message.
    pub fn new(kind: ErrorKind, message: &str) -> (e: IoError)
        ensures
            e@ == (kind, message@),
    {
        IoError { kind, message: String::from_str(message) }
    }

    /// An error of kind `Other` with the given message.
    pub fn other(message: &str) -> (e: IoError)
        ensures
            e@ == (ErrorKind::Other, message@),
    {
        IoError::new(ErrorKind::Other, message)
    }

    /// An error of the given kind whose message is already a `String`.
    pub fn from_message(kind: ErrorKind, message: String) -> (e: IoError)
        ensures
            e@ == (kind, message@),
    {
        IoError { kind, message }
    }

    /// The kind of this error.
    pub fn kind(&self) -> (k: ErrorKind)
        ensures
            k == self@.0,
    {
        self.kind
    }

    /// The message of this error, as it is displayed.
    pub fn to_string(&self) -> (s: String)
        ensures
            s@ == self@.1,
    {
        self.message.clone()
    }
}

impl Clone for IoError {
    fn clone(&self) -> (e: Self)
        ensures
            e == *self,
    {
        IoError { kind: self.kind, message: self.message.clone() }
    }
}

/// Unified error type for all public APIs of the library.
#[derive(Debug)]
pub enum Error {
    Io(IoError),
    Config(String),
    Decode(String),
    Encode(String),
    Crypto(String),
    Signaling(String),
    P2P(String),
    Transfer(String),
}

/// The text that precedes the detail in the display of each variant.
pub open spec fn display_prefix(e: &Error) -> Seq<char> {
    match e {
        Error::Io(_) => "I/O error: "@,
        Error::Config(_) => "configuration error: "@,
        Error::Decode(_) => "protocol decode error: "@,
        Error::Encode(_) => "protocol encode error: "@,
        Error::Crypto(_) => "cryptography error: "@,
        Error::Signaling(_) => "signaling error: "@,
        Error::P2P(_) => "P2P connection error: "@,
        Error::Transfer(_) => "transfer error: "@,
    }
}

/// The detail shown after the prefix: the message of the I/O error, or the
/// string that the variant carries.
pub open spec fn display_detail(e: &Error) -> Seq<char> {
    match e {
        Error::Io(io) => io@.1,
        Error::Config(s) => s@,
        Error::Decode(s) => s@,
        Error::Encode(s) => s@,
        Error::Crypto(s) => s@,
        Error::Signaling(s) => s@,
        Error::P2P(s) => s@,
        Error::Transfer(s) => s@,
    }
}

/// Two errors are equal when they are the same variant and carry equal
/// strings; two I/O errors are equal when their kinds are.
pub open spec fn error_eq(a: &Error, b: &Error) -> bool {
    match (a, b) {
        (Error::Io(x), Error::Io(y)) => x@.0 == y@.0,
        (Error::Config(x), Error::Config(y)) => x@ == y@,
        (Error::Decode(x), Error::Decode(y)) => x@ == y@,
        (Error::Encode(x), Error::Encode(y)) => x@ == y@,
        (Error::Crypto(x), Error::Crypto(y)) => x@ == y@,
        (Error::Signaling(x), Error::Signaling(y)) => x@ == y@,
        (Error::P2P(x), Error::P2P(y)) => x@ == y@,
        (Error::Transfer(x), Error::Transfer(y)) => x@ == y@,
        _ => false,
    }
}

/// Whether two errors are the same variant.
pub open spec fn same_variant(a: &Error, b: &Error) -> bool {
    ||| a is Io && b is Io
    ||| a is Config && b is Config
    ||| a is Decode && b is Decode
    ||| a is Encode && b is Encode
    ||| a is Crypto && b is Crypto
    ||| a is Signaling && b is Signaling
    ||| a is P2P && b is P2P
    ||| a is Transfer && b is Transfer
}

impl Error {
    /// The human-readable message: the variant's prefix, then its detail.
    pub fn to_string(&self) -> (s: String)
        ensures
            s@ == display_prefix(self) + display_detail(self),
            self matches Error::Io(e) ==> s@ == "I/O error: "@ + e@.1,
            self matches Error::Config(m) ==> s@ == "configuration error: "@ + m@,
            self matches Error::Decode(m) ==> s@ == "protocol decode error: "@ + m@,
            self matches Error::Encode(m) ==> s@ == "protocol encode error: "@ + m@,
            self matches Error::Crypto(m) ==> s@ == "cryptography error: "@ + m@,
            self matches Error::Signaling(m) ==> s@ == "signaling error: "@ + m@,
            self matches Error::P2P(m) ==> s@ == "P2P connection error: "@ + m@,
            self matches Error::Transfer(m) ==> s@ == "transfer error: "@ + m@,
    {
        match self {
            Error::Io(e) => {
                let mut s = String::from_str("I/O error: ");
                s.append(e.message.as_str());
                s
            },
            Error::Config(m) => {
                let mut s = String::from_str("configuration error: ");
                s.append(m.as_str());
                s
            },
            Error::Decode(m) => {
                let mut s = String::from_str("protocol decode error: ");
                s.append(m.as_str());
                s
            },
            Error::Encode(m) => {
                let mut s = String::from_str("protocol encode error: ");
                s.append(m.as_str());
                s
            },
            Error::Crypto(m) => {
                let mut s = String::from_str("cryptography error: ");
                s.append(m.as_str());
                s
            },
            Error::Signaling(m) => {
                let mut s = String::from_str("signaling error: ");
                s.append(m.as_str());
                s
            },
            Error::P2P(m) => {
                let mut s = String::from_str("P2P connection error: ");
                s.append(m.as_str());
                s
            },
            Error::Transfer(m) => {
                let mut s = String::from_str("transfer error: ");
                s.append(m.as_str());
                s
            },
        }
    }

    /// The underlying error: the I/O error for `Io`, none for the others.
    pub fn source(&self) -> (r: Option<&IoError>)
        ensures
            match self {
                Error::Io(e) => r == Some(e),
                _ => r is None,
            },
    {
        match self {
            Error::Io(e) => Some(e),
            _ => None,
        }
    }
}

impl Clone for Error {
    fn clone(&self) -> (r: Self)
        ensures
            r == *self,
    {
        match self {
            Error::Io(e) => Error::Io(e.clone()),
            Error::Config(s) => Error::Config(s.clone()),
            Error::Decode(s) => Error::Decode(s.clone()),
            Error::Encode(s) => Error::Encode(s.clone()),
            Error::Crypto(s) => Error::Crypto(s.clone()),
            Error::Signaling(s) => Error::Signaling(s.clone()),
            Error::P2P(s) => Error::P2P(s.clone()),
            Error::Transfer(s) => Error::Transfer(s.clone()),
        }
    }
}

impl PartialEq for Error {
    fn eq(&self, other: &Self) -> (r: bool)
        ensures
            (self, other) matches (Error::Io(a), Error::Io(b)) ==> (r <==> a@.0 == b@.0),
            (self, other) matches (Error::Config(a), Error::Config(b)) ==> (r <==> a@ == b@),
            (self, other) matches (Error::Decode(a), Error::Decode(b)) ==> (r <==> a@ == b@),
            (self, other) matches (Error::Encode(a), Error::Encode(b)) ==> (r <==> a@ == b@),
            (self, other) matches (Error::Crypto(a), Error::Crypto(b)) ==> (r <==> a@ == b@),
            (self, other) matches (Error::Signaling(a), Error::Signaling(b)) ==> (r <==> a@ == b@),
            (self, other) matches (Error::P2P(a), Error::P2P(b)) ==> (r <==> a@ == b@),
            (self, other) matches (Error::Transfer(a), Error::Transfer(b)) ==> (r <==> a@ == b@),
            !same_variant(self, other) ==> !r,
    {
        match (self, other) {
            (Error::Io(a), Error::Io(b)) => a.kind == b.kind,
            (Error::Config(a), Error::Config(b)) => *a == *b,
            (Error::Decode(a), Error::Decode(b)) => *a == *b,
            (Error::Encode(a), Error::Encode(b)) => *a == *b,
            (Error::Crypto(a), Error::Crypto(b)) => *a == *b,
            (Error::Signaling(a), Error::Signaling(b)) => *a == *b,
            (Error::P2P(a), Error::P2P(b)) => *a == *b,
            (Error::Transfer(a), Error::Transfer(b)) => *a == *b,
            _ => false,
        }
    }
}

impl vstd::std_specs::cmp::PartialEqSpecImpl for Error {
    open spec fn obeys_eq_spec() -> bool {
        true
    }

    open spec fn eq_spec(&self, other: &Self) -> bool {
        error_eq(self, other)
    }
}

impl From<IoError> for Error {
    fn from(e: IoError) -> (r: Self) {
        Error::Io(e)
    }
}

impl vstd::std_specs::convert::FromSpecImpl<IoError> for Error {
    open spec fn obeys_from_spec() -> bool {
        true
    }

    open spec fn from_spec(e: IoError) -> Self {
        Error::Io(e)
    }
}

/// Equality of errors is an equivalence: reflexive, symmetric and
/// transitive.
pub proof fn lemma_error_eq_equivalence(a: &Error, b: &Error, c: &Error)
    ensures
        error_eq(a, a),
        error_eq(a, b) ==> error_eq(b, a),
        error_eq(a, b) && error_eq(b, c) ==> error_eq(a, c),
{
}


/// Two errors of the same string-carrying variant are equal exactly when
/// they carry equal strings; two I/O errors, exactly when their kinds are
/// equal; errors of different variants are never equal.
pub proof fn lemma_error_eq_compares_payloads(x: String, y: String, a: IoError, b: IoError)
    ensures
        error_eq(&Error::Config(x), &Error::Config(y)) <==> x@ == y@,
        error_eq(&Error::Decode(x), &Error::Decode(y)) <==> x@ == y@,
        error_eq(&Error::Encode(x), &Error::Encode(y)) <==> x@ == y@,
        error_eq(&Error::Crypto(x), &Error::Crypto(y)) <==> x@ == y@,
        error_eq(&Error::Signaling(x), &Error::Signaling(y)) <==> x@ == y@,
        error_eq(&Error::P2P(x), &Error::P2P(y)) <==> x@ == y@,
        error_eq(&Error::Transfer(x), &Error::Transfer(y)) <==> x@ == y@,
        error_eq(&Error::Io(a), &Error::Io(b)) <==> a@.0 == b@.0,
        forall|e: Error, f: Error| !same_variant(&e, &f) ==> !#[trigger] error_eq(&e, &f),
{
}

/// The message of an error is its variant's prefix followed by exactly the
/// string it carries (the message of the I/O error for `Io`).
pub proof fn lemma_display_shows_the_carried_string(m: String, e: IoError)
    ensures
        display_prefix(&Error::Io(e)) + display_detail(&Error::Io(e)) == "I/O error: "@ + e@.1,
        display_prefix(&Error::Config(m)) + display_detail(&Error::Config(m))
            == "configuration error: "@ + m@,
        display_prefix(&Error::Decode(m)) + display_detail(&Error::Decode(m))
            == "protocol decode error: "@ + m@,
        display_prefix(&Error::Encode(m)) + display_detail(&Error::Encode(m))
            == "protocol encode error: "@ + m@,
        display_prefix(&Error::Crypto(m)) + display_detail(&Error::Crypto(m))
            == "cryptography error: "@ + m@,
        display_prefix(&Error::Signaling(m)) + display_detail(&Error::Signaling(m))
            == "signaling error: "@ + m@,
        display_prefix(&Error::P2P(m)) + display_detail(&Error::P2P(m))
            == "P2P connection error: "@ + m@,
        display_prefix(&Error::Transfer(m)) + display_detail(&Error::Transfer(m))
            == "transfer error: "@ + m@,
{
}

} // verus!
