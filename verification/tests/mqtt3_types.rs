use rustmq::mqtt3::{ConnectReturnCode, Error, Header, PacketIdentifier, PacketType, Protocol, QoS};

#[test]
fn protocol_test() {
    assert_eq!(Protocol::new("MQTT", 4).unwrap(), Protocol::MQTT(4));
    assert_eq!(Protocol::new("MQIsdp", 3).unwrap(), Protocol::MQIsdp(3));
    assert_eq!(Protocol::MQIsdp(3).name(), "MQIsdp");
    assert_eq!(Protocol::MQTT(4).name(), "MQTT");
    assert_eq!(Protocol::MQTT(3).level(), 3);
    assert_eq!(Protocol::MQTT(4).level(), 4);
}

#[test]
fn qos_min_test() {
    assert_eq!(QoS::AtMostOnce.min(QoS::AtMostOnce), QoS::AtMostOnce);
    assert_eq!(QoS::AtMostOnce.min(QoS::AtLeastOnce), QoS::AtMostOnce);
    assert_eq!(QoS::AtLeastOnce.min(QoS::AtMostOnce), QoS::AtMostOnce);
    assert_eq!(QoS::AtLeastOnce.min(QoS::ExactlyOnce), QoS::AtLeastOnce);
    assert_eq!(QoS::ExactlyOnce.min(QoS::AtMostOnce), QoS::AtMostOnce);
    assert_eq!(QoS::ExactlyOnce.min(QoS::ExactlyOnce), QoS::ExactlyOnce);
}

#[test]
fn packet_identifier_test() {
    let pid = PacketIdentifier::zero();
    assert_eq!(pid, PacketIdentifier(0));
    assert_eq!(pid.next(), PacketIdentifier(1));
}

#[test]
fn packet_identifier_wraps_past_zero() {
    assert_eq!(PacketIdentifier(65534).next(), PacketIdentifier(65535));
    assert_eq!(PacketIdentifier(65535).next(), PacketIdentifier(1));
}

#[test]
fn protocol_rejects_other_pairs() {
    assert_eq!(Protocol::new("MQTT", 3), Err(Error::UnsupportedProtocolVersion));
    assert_eq!(Protocol::new("MQIsdp", 4), Err(Error::UnsupportedProtocolVersion));
    assert_eq!(Protocol::new("MQTTT", 4), Err(Error::UnsupportedProtocolName));
    assert_eq!(Protocol::new("", 4), Err(Error::UnsupportedProtocolName));
}

#[test]
fn qos_from_bytes() {
    assert_eq!(QoS::from_u8(0), Ok(QoS::AtMostOnce));
    assert_eq!(QoS::from_u8(1), Ok(QoS::AtLeastOnce));
    assert_eq!(QoS::from_u8(2), Ok(QoS::ExactlyOnce));
    assert_eq!(QoS::from_u8(3), Err(Error::UnsupportedQualityOfService));
    assert_eq!(QoS::from_hd(0b0011_0100), Ok(QoS::ExactlyOnce));
    assert_eq!(QoS::from_hd(0b0011_0110), Err(Error::UnsupportedQualityOfService));
    assert_eq!(QoS::ExactlyOnce.to_u8(), 2);
}

#[test]
fn packet_type_from_bytes() {
    assert_eq!(PacketType::from_u8(0), Err(Error::UnsupportedPacketType));
    assert_eq!(PacketType::from_u8(15), Err(Error::UnsupportedPacketType));
    assert_eq!(PacketType::from_u8(1), Ok(PacketType::Connect));
    assert_eq!(PacketType::from_u8(14), Ok(PacketType::Disconnect));
    assert_eq!(PacketType::from_hd(0x82), Ok(PacketType::Subscribe));
    assert_eq!(PacketType::Unsuback.to_u8(), 11);
    assert_eq!(PacketType::Unsuback.name(), "Unsuback");
    assert_eq!(PacketType::Connect.name(), format!("{:?}", PacketType::Connect));
    for byte in 1..15u8 {
        assert_eq!(PacketType::from_u8(byte).unwrap().to_u8(), byte);
    }
}

#[test]
fn connect_return_code_from_bytes() {
    for byte in 0..6u8 {
        assert_eq!(ConnectReturnCode::from_u8(byte).unwrap().to_u8(), byte);
    }
    assert_eq!(ConnectReturnCode::from_u8(6), Err(Error::UnsupportedConnectReturnCode));
    assert_eq!(ConnectReturnCode::from_u8(5), Ok(ConnectReturnCode::NotAuthorized));
}

#[test]
fn header_fields() {
    let header = Header::new(0b0011_1011, 7).unwrap();
    assert_eq!(header.typ, PacketType::Publish);
    assert_eq!(header.len, 7);
    assert!(header.dup());
    assert!(header.retain());
    assert_eq!(header.qos(), Ok(QoS::AtLeastOnce));
    let header = Header::new(0b0011_0000, 0).unwrap();
    assert!(!header.dup());
    assert!(!header.retain());
    assert_eq!(header.qos(), Ok(QoS::AtMostOnce));
    assert_eq!(Header::new(0x00, 0).unwrap_err(), Error::UnsupportedPacketType);
    assert_eq!(Header::new(0xF0, 0).unwrap_err(), Error::UnsupportedPacketType);
}

#[test]
fn error_descriptions() {
    assert_eq!(Error::PayloadTooLong.description(), "Payload Too Long");
    assert_eq!(Error::UnexpectedEof.description(), "Unexpected Eof");
    assert_eq!(Error::InvalidTopicPath.description(), "Invalid Topic Path");
}
