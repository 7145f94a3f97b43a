//! Packet types, topic model and wire codec of MQTT 3.1 / 3.1.1.
use vstd::prelude::*;
use vstd::utf8::*;

pub mod error;
pub mod laws;
pub mod mqtt;
pub mod msg;
pub mod read;
pub mod topic;
pub mod wire;
pub mod write;

pub use self::error::{Error, Result};
pub use self::msg::Message;
pub use self::read::MqttRead;
pub use self::topic::{ToTopicPath, Topic, TopicPath};
pub use self::write::MqttWrite;
pub use self::mqtt::{
    Connack, Connect, Packet, Publish, Suback, Subscribe, SubscribeReturnCodes, SubscribeTopic,
    Unsubscribe,
};

verus! {

/// The largest value that the remaining-length field can carry: 2^28 - 1.
pub const MAX_PAYLOAD_SIZE: usize = 268435455;

/// Whether two byte slices hold the same bytes.
pub fn bytes_eq(a: &[u8], b: &[u8]) -> (same: bool)
    ensures
        same == (a@ == b@),
{
    if a.len() != b.len() {
        return false;
    }
    let mut i: usize = 0;
    while i < a.len()
        invariant
            a@.len() == b@.len(),
            i <= a@.len(),
            forall|j: int| 0 <= j < i ==> a@[j] == b@[j],
        decreases a@.len() - i,
    {
        if a[i] != b[i] {
            return false;
        }
        i += 1;
    }
    assert(a@ =~= b@);
    true
}

/// Whether two strings hold the same characters.
pub fn str_eq(a: &str, b: &str) -> (same: bool)
    ensures
        same == (a@ == b@),
{
    proof {
        encode_utf8_decode_utf8(a@);
        encode_utf8_decode_utf8(b@);
    }
    bytes_eq(a.as_bytes(), b.as_bytes())
}

/// The protocol name and level that a CONNECT packet announces.
#[derive(Debug, Clone, Copy, PartialEq, Eq, Structural)]
pub enum Protocol {
    MQIsdp(u8),
    MQTT(u8),
}

impl Protocol {
    /// The protocol that a (name, level) pair stands for; only
    /// ("MQIsdp", 3) and ("MQTT", 4) stand for one.
    pub open spec fn spec_new(name: Seq<char>, level: u8) -> Result<Protocol> {
        if name == "MQIsdp"@ {
            if level == 3 {
                Ok(Protocol::MQIsdp(3))
            } else {
                Err(Error::UnsupportedProtocolVersion)
            }
        } else if name == "MQTT"@ {
            if level == 4 {
                Ok(Protocol::MQTT(4))
            } else {
                Err(Error::UnsupportedProtocolVersion)
            }
        } else {
            Err(Error::UnsupportedProtocolName)
        }
    }

    pub open spec fn spec_name(self) -> Seq<char> {
        match self {
            Protocol::MQIsdp(_) => "MQIsdp"@,
            Protocol::MQTT(_) => "MQTT"@,
        }
    }

    pub open spec fn spec_level(self) -> u8 {
        match self {
            Protocol::MQIsdp(level) => level,
            Protocol::MQTT(level) => level,
        }
    }

    /// A protocol with the one level that its name allows.
    pub open spec fn is_standard(self) -> bool {
        self == Protocol::MQIsdp(3) || self == Protocol::MQTT(4)
    }

    pub fn new(name: &str, level: u8) -> (r: Result<Protocol>)
        ensures
            r == Self::spec_new(name@, level),
    {
        if str_eq(name, "MQIsdp") {
            if level == 3 {
                Ok(Protocol::MQIsdp(3))
            } else {
                Err(Error::UnsupportedProtocolVersion)
            }
        } else if str_eq(name, "MQTT") {
            if level == 4 {
                Ok(Protocol::MQTT(4))
            } else {
                Err(Error::UnsupportedProtocolVersion)
            }
        } else {
            Err(Error::UnsupportedProtocolName)
        }
    }

    pub fn name(&self) -> (name: &'static str)
        ensures
            name@ == self.spec_name(),
    {
        match self {
            Protocol::MQIsdp(_) => "MQIsdp",
            Protocol::MQTT(_) => "MQTT",
        }
    }

    pub fn level(&self) -> (level: u8)
        ensures
            level == self.spec_level(),
    {
        match self {
            Protocol::MQIsdp(level) => *level,
            Protocol::MQTT(level) => *level,
        }
    }
}

/// A standard protocol is rebuilt from its own name and level.
pub proof fn lemma_protocol_new_name_level(p: Protocol)
    requires
        p.is_standard(),
    ensures
        Protocol::spec_new(p.spec_name(), p.spec_level()) == Ok::<Protocol, Error>(p),
{
    reveal_strlit("MQIsdp");
    reveal_strlit("MQTT");
    assert("MQIsdp"@.len() != "MQTT"@.len());
}

/// Quality-of-service tier of a delivery.
#[derive(Debug, Clone, Copy, PartialEq, Eq, Structural)]
pub enum QoS {
    AtMostOnce,
    AtLeastOnce,
    ExactlyOnce,
}

impl QoS {
    pub open spec fn spec_from_u8(byte: u8) -> Result<QoS> {
        if byte == 0 {
            Ok(QoS::AtMostOnce)
        } else if byte == 1 {
            Ok(QoS::AtLeastOnce)
        } else if byte == 2 {
            Ok(QoS::ExactlyOnce)
        } else {
            Err(Error::UnsupportedQualityOfService)
        }
    }

    /// The tier in bits 1 and 2 of a PUBLISH header byte.
    pub open spec fn spec_from_hd(hd: u8) -> Result<QoS> {
        Self::spec_from_u8((hd & 0b110) >> 1)
    }

    pub open spec fn spec_to_u8(self) -> u8 {
        match self {
            QoS::AtMostOnce => 0,
            QoS::AtLeastOnce => 1,
            QoS::ExactlyOnce => 2,
        }
    }

    pub open spec fn spec_min(self, other: QoS) -> QoS {
        if self.spec_to_u8() <= other.spec_to_u8() {
            self
        } else {
            other
        }
    }

    pub fn from_u8(byte: u8) -> (r: Result<QoS>)
        ensures
            r == Self::spec_from_u8(byte),
    {
        match byte {
            0 => Ok(QoS::AtMostOnce),
            1 => Ok(QoS::AtLeastOnce),
            2 => Ok(QoS::ExactlyOnce),
            _ => Err(Error::UnsupportedQualityOfService),
        }
    }

    pub fn from_hd(hd: u8) -> (r: Result<QoS>)
        ensures
            r == Self::spec_from_hd(hd),
    {
        Self::from_u8((hd & 0b110) >> 1)
    }

    pub fn to_u8(&self) -> (byte: u8)
        ensures
            byte == self.spec_to_u8(),
    {
        match *self {
            QoS::AtMostOnce => 0,
            QoS::AtLeastOnce => 1,
            QoS::ExactlyOnce => 2,
        }
    }

    /// The lower of two tiers.
    pub fn min(&self, other: QoS) -> (lower: QoS)
        ensures
            lower == self.spec_min(other),
    {
        match *self {
            QoS::AtMostOnce => QoS::AtMostOnce,
            QoS::AtLeastOnce => {
                match other {
                    QoS::AtMostOnce => QoS::AtMostOnce,
                    _ => QoS::AtLeastOnce,
                }
            },
            QoS::ExactlyOnce => other,
        }
    }
}

/// The fourteen control packet types.
#[derive(Debug, Clone, Copy, PartialEq, Eq, Structural)]
pub enum PacketType {
    Connect,
    Connack,
    Publish,
    Puback,
    Pubrec,
    Pubrel,
    Pubcomp,
    Subscribe,
    Suback,
    Unsubscribe,
    Unsuback,
    Pingreq,
    Pingresp,
    Disconnect,
}

impl PacketType {
    pub open spec fn spec_to_u8(self) -> u8 {
        match self {
            PacketType::Connect => 1,
            PacketType::Connack => 2,
            PacketType::Publish => 3,
            PacketType::Puback => 4,
            PacketType::Pubrec => 5,
            PacketType::Pubrel => 6,
            PacketType::Pubcomp => 7,
            PacketType::Subscribe => 8,
            PacketType::Suback => 9,
            PacketType::Unsubscribe => 10,
            PacketType::Unsuback => 11,
            PacketType::Pingreq => 12,
            PacketType::Pingresp => 13,
            PacketType::Disconnect => 14,
        }
    }

    pub open spec fn spec_from_u8(byte: u8) -> Result<PacketType> {
        if byte == 1 {
            Ok(PacketType::Connect)
        } else if byte == 2 {
            Ok(PacketType::Connack)
        } else if byte == 3 {
            Ok(PacketType::Publish)
        } else if byte == 4 {
            Ok(PacketType::Puback)
        } else if byte == 5 {
            Ok(PacketType::Pubrec)
        } else if byte == 6 {
            Ok(PacketType::Pubrel)
        } else if byte == 7 {
            Ok(PacketType::Pubcomp)
        } else if byte == 8 {
            Ok(PacketType::Subscribe)
        } else if byte == 9 {
            Ok(PacketType::Suback)
        } else if byte == 10 {
            Ok(PacketType::Unsubscribe)
        } else if byte == 11 {
            Ok(PacketType::Unsuback)
        } else if byte == 12 {
            Ok(PacketType::Pingreq)
        } else if byte == 13 {
            Ok(PacketType::Pingresp)
        } else if byte == 14 {
            Ok(PacketType::Disconnect)
        } else {
            Err(Error::UnsupportedPacketType)
        }
    }

    pub open spec fn spec_name(self) -> Seq<char> {
        match self {
            PacketType::Connect => "Connect"@,
            PacketType::Connack => "Connack"@,
            PacketType::Publish => "Publish"@,
            PacketType::Puback => "Puback"@,
            PacketType::Pubrec => "Pubrec"@,
            PacketType::Pubrel => "Pubrel"@,
            PacketType::Pubcomp => "Pubcomp"@,
            PacketType::Subscribe => "Subscribe"@,
            PacketType::Suback => "Suback"@,
            PacketType::Unsubscribe => "Unsubscribe"@,
            PacketType::Unsuback => "Unsuback"@,
            PacketType::Pingreq => "Pingreq"@,
            PacketType::Pingresp => "Pingresp"@,
            PacketType::Disconnect => "Disconnect"@,
        }
    }

    /// The name of the type, as it is shown.
    pub fn name(&self) -> (name: &'static str)
        ensures
            name@ == self.spec_name(),
    {
        match *self {
            PacketType::Connect => "Connect",
            PacketType::Connack => "Connack",
            PacketType::Publish => "Publish",
            PacketType::Puback => "Puback",
            PacketType::Pubrec => "Pubrec",
            PacketType::Pubrel => "Pubrel",
            PacketType::Pubcomp => "Pubcomp",
            PacketType::Subscribe => "Subscribe",
            PacketType::Suback => "Suback",
            PacketType::Unsubscribe => "Unsubscribe",
            PacketType::Unsuback => "Unsuback",
            PacketType::Pingreq => "Pingreq",
            PacketType::Pingresp => "Pingresp",
            PacketType::Disconnect => "Disconnect",
        }
    }

    /// The type in the upper nibble of a header byte.
    pub open spec fn spec_from_hd(hd: u8) -> Result<PacketType> {
        Self::spec_from_u8(hd >> 4)
    }

    pub fn to_u8(&self) -> (byte: u8)
        ensures
            byte == self.spec_to_u8(),
    {
        match *self {
            PacketType::Connect => 1,
            PacketType::Connack => 2,
            PacketType::Publish => 3,
            PacketType::Puback => 4,
            PacketType::Pubrec => 5,
            PacketType::Pubrel => 6,
            PacketType::Pubcomp => 7,
            PacketType::Subscribe => 8,
            PacketType::Suback => 9,
            PacketType::Unsubscribe => 10,
            PacketType::Unsuback => 11,
            PacketType::Pingreq => 12,
            PacketType::Pingresp => 13,
            PacketType::Disconnect => 14,
        }
    }

    pub fn from_u8(byte: u8) -> (r: Result<PacketType>)
        ensures
            r == Self::spec_from_u8(byte),
    {
        match byte {
            1 => Ok(PacketType::Connect),
            2 => Ok(PacketType::Connack),
            3 => Ok(PacketType::Publish),
            4 => Ok(PacketType::Puback),
            5 => Ok(PacketType::Pubrec),
            6 => Ok(PacketType::Pubrel),
            7 => Ok(PacketType::Pubcomp),
            8 => Ok(PacketType::Subscribe),
            9 => Ok(PacketType::Suback),
            10 => Ok(PacketType::Unsubscribe),
            11 => Ok(PacketType::Unsuback),
            12 => Ok(PacketType::Pingreq),
            13 => Ok(PacketType::Pingresp),
            14 => Ok(PacketType::Disconnect),
            _ => Err(Error::UnsupportedPacketType),
        }
    }

    pub fn from_hd(hd: u8) -> (r: Result<PacketType>)
        ensures
            r == Self::spec_from_hd(hd),
    {
        Self::from_u8(hd >> 4)
    }
}

/// The answer of the server to a CONNECT.
#[derive(Debug, Clone, Copy, PartialEq, Eq, Structural)]
pub enum ConnectReturnCode {
    Accepted,
    RefusedProtocolVersion,
    RefusedIdentifierRejected,
    ServerUnavailable,
    BadUsernamePassword,
    NotAuthorized,
}

impl ConnectReturnCode {
    pub open spec fn spec_to_u8(self) -> u8 {
        match self {
            ConnectReturnCode::Accepted => 0,
            ConnectReturnCode::RefusedProtocolVersion => 1,
            ConnectReturnCode::RefusedIdentifierRejected => 2,
            ConnectReturnCode::ServerUnavailable => 3,
            ConnectReturnCode::BadUsernamePassword => 4,
            ConnectReturnCode::NotAuthorized => 5,
        }
    }

    pub open spec fn spec_from_u8(byte: u8) -> Result<ConnectReturnCode> {
        if byte == 0 {
            Ok(ConnectReturnCode::Accepted)
        } else if byte == 1 {
            Ok(ConnectReturnCode::RefusedProtocolVersion)
        } else if byte == 2 {
            Ok(ConnectReturnCode::RefusedIdentifierRejected)
        } else if byte == 3 {
            Ok(ConnectReturnCode::ServerUnavailable)
        } else if byte == 4 {
            Ok(ConnectReturnCode::BadUsernamePassword)
        } else if byte == 5 {
            Ok(ConnectReturnCode::NotAuthorized)
        } else {
            Err(Error::UnsupportedConnectReturnCode)
        }
    }

    pub fn to_u8(&self) -> (byte: u8)
        ensures
            byte == self.spec_to_u8(),
    {
        match *self {
            ConnectReturnCode::Accepted => 0,
            ConnectReturnCode::RefusedProtocolVersion => 1,
            ConnectReturnCode::RefusedIdentifierRejected => 2,
            ConnectReturnCode::ServerUnavailable => 3,
            ConnectReturnCode::BadUsernamePassword => 4,
            ConnectReturnCode::NotAuthorized => 5,
        }
    }

    pub fn from_u8(byte: u8) -> (r: Result<ConnectReturnCode>)
        ensures
            r == Self::spec_from_u8(byte),
    {
        match byte {
            0 => Ok(ConnectReturnCode::Accepted),
            1 => Ok(ConnectReturnCode::RefusedProtocolVersion),
            2 => Ok(ConnectReturnCode::RefusedIdentifierRejected),
            3 => Ok(ConnectReturnCode::ServerUnavailable),
            4 => Ok(ConnectReturnCode::BadUsernamePassword),
            5 => Ok(ConnectReturnCode::NotAuthorized),
            _ => Err(Error::UnsupportedConnectReturnCode),
        }
    }
}

/// The 16-bit number that ties an acknowledgement to its request.
#[derive(Debug, Clone, Copy, PartialEq, Eq, PartialOrd, Ord, Hash, Structural)]
pub struct PacketIdentifier(pub u16);

impl PacketIdentifier {
    /// The identifier that follows `self`: one more, and 1 after 65535,
    /// so that zero is never handed out.
    pub open spec fn spec_next(self) -> PacketIdentifier {
        if self.0 == 65535 {
            PacketIdentifier(1)
        } else {
            PacketIdentifier((self.0 + 1) as u16)
        }
    }

    /// The value before the first allocation; never allocated itself.
    pub fn zero() -> (pid: PacketIdentifier)
        ensures
            pid == PacketIdentifier(0),
    {
        PacketIdentifier(0)
    }

    pub fn next(&self) -> (pid: PacketIdentifier)
        ensures
            pid == self.spec_next(),
            pid.0 != 0,
    {
        if self.0 == 65535 {
            PacketIdentifier(1)
        } else {
            PacketIdentifier(self.0 + 1)
        }
    }
}

/// The fixed header of a packet: its first byte, the type in it, and the
/// remaining length.
#[derive(Debug, Clone, Copy, PartialEq)]
pub struct Header {
    pub hd: u8,
    pub typ: PacketType,
    pub len: usize,
}

impl Header {
    /// The type field agrees with the first byte.
    pub open spec fn wf(&self) -> bool {
        PacketType::spec_from_hd(self.hd) == Ok::<PacketType, Error>(self.typ)
    }

    pub open spec fn spec_dup(&self) -> bool {
        (self.hd & 0b1000) != 0
    }

    pub open spec fn spec_retain(&self) -> bool {
        (self.hd & 1) != 0
    }

    pub fn new(hd: u8, len: usize) -> (r: Result<Header>)
        ensures
            match r {
                Ok(header) => {
                    &&& PacketType::spec_from_hd(hd) == Ok::<PacketType, Error>(header.typ)
                    &&& header.hd == hd
                    &&& header.len == len
                    &&& header.wf()
                },
                Err(e) => PacketType::spec_from_hd(hd) == Err::<PacketType, Error>(e),
            },
    {
        match PacketType::from_hd(hd) {
            Ok(typ) => Ok(Header { hd: hd, typ: typ, len: len }),
            Err(e) => Err(e),
        }
    }

    pub fn dup(&self) -> (flag: bool)
        ensures
            flag == self.spec_dup(),
    {
        (self.hd & 0b1000) != 0
    }

    /// The tier of a PUBLISH header. The bits mean nothing on another
    /// type of packet, so the header must be that of a PUBLISH.
    pub fn qos(&self) -> (r: Result<QoS>)
        requires
            self.typ == PacketType::Publish,
        ensures
            r == QoS::spec_from_hd(self.hd),
    {
        QoS::from_hd(self.hd)
    }

    pub fn retain(&self) -> (flag: bool)
        ensures
            flag == self.spec_retain(),
    {
        (self.hd & 1) != 0
    }
}

/// The message that the server publishes when the client is lost.
#[derive(Debug, PartialEq)]
pub struct LastWill {
    pub topic: String,
    pub message: String,
    pub qos: QoS,
    pub retain: bool,
}

/// What a `LastWill` holds, as mathematical values.
pub ghost struct LastWillView {
    pub topic: Seq<char>,
    pub message: Seq<char>,
    pub qos: QoS,
    pub retain: bool,
}

impl View for LastWill {
    type V = LastWillView;

    open spec fn view(&self) -> LastWillView {
        LastWillView {
            topic: self.topic@,
            message: self.message@,
            qos: self.qos,
            retain: self.retain,
        }
    }
}

impl Clone for LastWill {
    fn clone(&self) -> (copy: LastWill)
        ensures
            copy@ == self@,
    {
        LastWill {
            topic: self.topic.clone(),
            message: self.message.clone(),
            qos: self.qos,
            retain: self.retain,
        }
    }
}

/// The view of an optional string.
pub open spec fn opt_string_view(s: Option<String>) -> Option<Seq<char>> {
    match s {
        Some(s) => Some(s@),
        None => None,
    }
}

/// A copy of an optional string.
pub fn clone_opt_string(s: &Option<String>) -> (copy: Option<String>)
    ensures
        opt_string_view(copy) == opt_string_view(*s),
{
    match s {
        Some(s) => Some(s.clone()),
        None => None,
    }
}

} // verus!
