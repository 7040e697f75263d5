//! OpenPeer: the wire protocol of the signaling service (message codecs and
//! frame assembly), the unified error type and the configuration defaults.

pub mod config;
pub mod error;
pub mod protocol;
pub mod text;

pub use error::{Error, ErrorKind, IoError};
