use vstd::prelude::*;

verus! {

/// What can go wrong while building, encoding or decoding a packet.
#[derive(Debug, Clone, Copy, PartialEq, Eq, Structural)]
pub enum Error {
    IncorrectPacketFormat,
    InvalidTopicPath,
    UnsupportedProtocolName,
    UnsupportedProtocolVersion,
    UnsupportedQualityOfService,
    UnsupportedPacketType,
    UnsupportedConnectReturnCode,
    PayloadSizeIncorrect,
    PayloadTooLong,
    PayloadRequired,
    TopicNameMustNotContainNonUtf8,
    TopicNameMustNotContainWildcard,
    MalformedRemainingLength,
    UnexpectedEof,
}

pub type Result<T> = core::result::Result<T, Error>;

impl Error {
    /// The human-readable name of the error.
    pub open spec fn spec_description(self) -> Seq<char> {
        match self {
            Error::IncorrectPacketFormat => "Incorrect Packet Format"@,
            Error::InvalidTopicPath => "Invalid Topic Path"@,
            Error::UnsupportedProtocolName => "Unsupported Protocol Name"@,
            Error::UnsupportedProtocolVersion => "Unsupported Protocol Version"@,
            Error::UnsupportedQualityOfService => "Unsupported Quality Of Service"@,
            Error::UnsupportedPacketType => "Unsupported Packet Type"@,
            Error::UnsupportedConnectReturnCode => "Unsupported Connect Return Code"@,
            Error::PayloadSizeIncorrect => "Payload Size Incorrect"@,
            Error::PayloadTooLong => "Payload Too Long"@,
            Error::PayloadRequired => "Payload Required"@,
            Error::TopicNameMustNotContainNonUtf8 => "Topic Name Must Not Contain Non Utf 8"@,
            Error::TopicNameMustNotContainWildcard => "Topic Name Must Not Contain Wildcard"@,
            Error::MalformedRemainingLength => "Malformed Remaining Length"@,
            Error::UnexpectedEof => "Unexpected Eof"@,
        }
    }

    pub fn description(&self) -> (text: &'static str)
        ensures
            text@ == self.spec_description(),
    {
        match *self {
            Error::IncorrectPacketFormat => "Incorrect Packet Format",
            Error::InvalidTopicPath => "Invalid Topic Path",
            Error::UnsupportedProtocolName => "Unsupported Protocol Name",
            Error::UnsupportedProtocolVersion => "Unsupported Protocol Version",
            Error::UnsupportedQualityOfService => "Unsupported Quality Of Service",
            Error::UnsupportedPacketType => "Unsupported Packet Type",
            Error::UnsupportedConnectReturnCode => "Unsupported Connect Return Code",
            Error::PayloadSizeIncorrect => "Payload Size Incorrect",
            Error::PayloadTooLong => "Payload Too Long",
            Error::PayloadRequired => "Payload Required",
            Error::TopicNameMustNotContainNonUtf8 => "Topic Name Must Not Contain Non Utf 8",
            Error::TopicNameMustNotContainWildcard => "Topic Name Must Not Contain Wildcard",
            Error::MalformedRemainingLength => "Malformed Remaining Length",
            Error::UnexpectedEof => "Unexpected Eof",
        }
    }
}

} // verus!
