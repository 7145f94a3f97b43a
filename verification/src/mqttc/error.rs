//! What can go wrong in a session.
use vstd::prelude::*;
use vstd::std_specs::convert::FromSpecImpl;
use crate::mqtt3::error::Error as MqttError;
use crate::mqtt3::{ConnectReturnCode, PacketIdentifier};
use crate::netopt::error::ErrorKind;
use super::store::Error as StorageError;

verus! {

#[derive(Debug, Clone, Copy, PartialEq, Eq, Structural)]
pub enum Error {
    AlreadyConnected,
    UnsupportedFeature,
    UnrecognizedPacket,
    ConnectionAbort,
    IncommingStorageAbsent,
    OutgoingStorageAbsent,
    HandshakeFailed,
    ProtocolViolation,
    Disconnected,
    Timeout,
    UnhandledPuback(PacketIdentifier),
    UnhandledPubrec(PacketIdentifier),
    UnhandledPubrel(PacketIdentifier),
    UnhandledPubcomp(PacketIdentifier),
    ConnectionRefused(ConnectReturnCode),
    Storage(StorageError),
    Mqtt(MqttError),
    Io(ErrorKind),
}

pub type Result<T> = core::result::Result<T, Error>;

impl From<ErrorKind> for Error {
    fn from(kind: ErrorKind) -> (e: Error) {
        Error::Io(kind)
    }
}

impl FromSpecImpl<ErrorKind> for Error {
    open spec fn obeys_from_spec() -> bool {
        true
    }

    open spec fn from_spec(kind: ErrorKind) -> Error {
        Error::Io(kind)
    }
}

impl From<MqttError> for Error {
    fn from(err: MqttError) -> (e: Error) {
        Error::Mqtt(err)
    }
}

impl FromSpecImpl<MqttError> for Error {
    open spec fn obeys_from_spec() -> bool {
        true
    }

    open spec fn from_spec(err: MqttError) -> Error {
        Error::Mqtt(err)
    }
}

impl From<StorageError> for Error {
    fn from(err: StorageError) -> (e: Error) {
        Error::Storage(err)
    }
}

impl FromSpecImpl<StorageError> for Error {
    open spec fn obeys_from_spec() -> bool {
        true
    }

    open spec fn from_spec(err: StorageError) -> Error {
        Error::Storage(err)
    }
}

impl Error {
    pub open spec fn spec_description(self) -> Seq<char> {
        match self {
            Error::AlreadyConnected => "AlreadyConnected"@,
            Error::UnsupportedFeature => "UnsupportedFeature"@,
            Error::UnrecognizedPacket => "UnrecognizedPacket"@,
            Error::ConnectionAbort => "ConnectionAbort"@,
            Error::IncommingStorageAbsent => "IncommingStorageAbsent"@,
            Error::OutgoingStorageAbsent => "OutgoingStorageAbsent"@,
            Error::HandshakeFailed => "HandshakeFailed"@,
            Error::ProtocolViolation => "ProtocolViolation"@,
            Error::Disconnected => "Disconnected"@,
            Error::Timeout => "Timeout"@,
            Error::UnhandledPuback(_) => "UnhandledPuback"@,
            Error::UnhandledPubrec(_) => "UnhandledPubrec"@,
            Error::UnhandledPubrel(_) => "UnhandledPubrel"@,
            Error::UnhandledPubcomp(_) => "UnhandledPubcomp"@,
            Error::ConnectionRefused(_) => "ConnectionRefused"@,
            Error::Storage(err) => err.spec_description(),
            Error::Mqtt(err) => err.spec_description(),
            Error::Io(_) => "IO error"@,
        }
    }

    pub fn description(&self) -> (text: &'static str)
        ensures
            text@ == self.spec_description(),
    {
        match self {
            Error::AlreadyConnected => "AlreadyConnected",
            Error::UnsupportedFeature => "UnsupportedFeature",
            Error::UnrecognizedPacket => "UnrecognizedPacket",
            Error::ConnectionAbort => "ConnectionAbort",
            Error::IncommingStorageAbsent => "IncommingStorageAbsent",
            Error::OutgoingStorageAbsent => "OutgoingStorageAbsent",
            Error::HandshakeFailed => "HandshakeFailed",
            Error::ProtocolViolation => "ProtocolViolation",
            Error::Disconnected => "Disconnected",
            Error::Timeout => "Timeout",
            Error::UnhandledPuback(_) => "UnhandledPuback",
            Error::UnhandledPubrec(_) => "UnhandledPubrec",
            Error::UnhandledPubrel(_) => "UnhandledPubrel",
            Error::UnhandledPubcomp(_) => "UnhandledPubcomp",
            Error::ConnectionRefused(_) => "ConnectionRefused",
            Error::Storage(err) => err.description(),
            Error::Mqtt(err) => err.description(),
            Error::Io(_) => "IO error",
        }
    }
}

} // verus!
