//! Streams that the client reads packets from and writes packets to.
pub mod error;
pub mod mock;

pub use self::error::{Error, ErrorKind, Result};
pub use self::mock::{MockConnector, MockStream};
