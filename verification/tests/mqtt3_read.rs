use std::sync::Arc;
use rustmq::mqtt3::read::{decode_packet, decode_remaining_length};
use rustmq::mqtt3::{
    Connack, Connect, ConnectReturnCode, Error, Header, LastWill, MqttRead, Packet,
    PacketIdentifier, Protocol, Publish, QoS, Suback, Subscribe, SubscribeReturnCodes,
    SubscribeTopic, Unsubscribe,
};
use rustmq::netopt::MockStream;

fn stream(data: Vec<u8>) -> MockStream {
    MockStream::with_read_data("localhost:1883", data)
}

fn read_error(data: Vec<u8>) -> Error {
    stream(data).read_packet().unwrap_err()
}

#[test]
fn read_packet_connect_mqtt_protocol_test() {
    let mut stream = stream(vec![
        0x10, 39,
        0x00, 0x04, 'M' as u8, 'Q' as u8, 'T' as u8, 'T' as u8,
        0x04,
        0b11001110, // +username, +password, -will retain, will qos=1, +last_will, +clean_session
        0x00, 0x0a, // 10 sec
        0x00, 0x04, 't' as u8, 'e' as u8, 's' as u8, 't' as u8, // client_id
        0x00, 0x02, '/' as u8, 'a' as u8, // will topic = '/a'
        0x00, 0x07, 'o' as u8, 'f' as u8, 'f' as u8, 'l' as u8, 'i' as u8, 'n' as u8, 'e' as u8, // will msg = 'offline'
        0x00, 0x04, 'r' as u8, 'u' as u8, 's' as u8, 't' as u8, // username = 'rust'
        0x00, 0x02, 'm' as u8, 'q' as u8 // password = 'mq'
    ]);

    let packet = stream.read_packet().unwrap();

    assert_eq!(packet, Packet::Connect(Connect {
        protocol: Protocol::MQTT(4),
        keep_alive: 10,
        client_id: "test".to_owned(),
        clean_session: true,
        last_will: Some(LastWill {
            topic: "/a".to_owned(),
            message: "offline".to_owned(),
            retain: false,
            qos: QoS::AtLeastOnce
        }),
        username: Some("rust".to_owned()),
        password: Some("mq".to_owned())
    }));
}

#[test]
fn read_packet_connect_mqisdp_protocol_test() {
    let mut stream = stream(vec![
        0x10, 18,
        0x00, 0x06, 'M' as u8, 'Q' as u8, 'I' as u8, 's' as u8, 'd' as u8, 'p' as u8,
        0x03,
        0b00000000, // -username, -password, -will retain, will qos=0, -last_will, -clean_session
        0x00, 0x3c, // 60 sec
        0x00, 0x04, 't' as u8, 'e' as u8, 's' as u8, 't' as u8 // client_id
    ]);

    let packet = stream.read_packet().unwrap();

    assert_eq!(packet, Packet::Connect(Connect {
        protocol: Protocol::MQIsdp(3),
        keep_alive: 60,
        client_id: "test".to_owned(),
        clean_session: false,
        last_will: None,
        username: None,
        password: None
    }));
}

#[test]
fn read_packet_connack_test() {
    let mut stream = stream(vec![0b00100000, 0x02, 0x01, 0x00]);
    let packet = stream.read_packet().unwrap();

    assert_eq!(packet, Packet::Connack(Connack {
        session_present: true,
        code: ConnectReturnCode::Accepted
    }));
}

#[test]
fn read_packet_publish_qos1_test() {
    let mut stream = stream(vec![
        0b00110010, 11,
        0x00, 0x03, 'a' as u8, '/' as u8, 'b' as u8, // topic name = 'a/b'
        0x00, 0x0a, // pid = 10
        0xF1, 0xF2, 0xF3, 0xF4
    ]);

    let packet = stream.read_packet().unwrap();

    assert_eq!(packet, Packet::Publish(Publish {
        dup: false,
        qos: QoS::AtLeastOnce,
        retain: false,
        topic_name: "a/b".to_owned(),
        pid: Some(PacketIdentifier(10)),
        payload: Arc::new(vec![0xF1, 0xF2, 0xF3, 0xF4])
    }));
}

#[test]
fn read_packet_publish_qos0_test() {
    let mut stream = stream(vec![
        0b00110000, 7,
        0x00, 0x03, 'a' as u8, '/' as u8, 'b' as u8, // topic name = 'a/b'
        0x01, 0x02
    ]);

    let packet = stream.read_packet().unwrap();

    assert_eq!(packet, Packet::Publish(Publish {
        dup: false,
        qos: QoS::AtMostOnce,
        retain: false,
        topic_name: "a/b".to_owned(),
        pid: None,
        payload: Arc::new(vec![0x01, 0x02])
    }));
}

#[test]
fn read_packet_puback_test() {
    let mut stream = stream(vec![0b01000000, 0x02, 0x00, 0x0A]);
    let packet = stream.read_packet().unwrap();

    assert_eq!(packet, Packet::Puback(PacketIdentifier(10)));
}

#[test]
fn read_packet_subscribe_test() {
    let mut stream = stream(vec![
        0b10000010, 20,
        0x01, 0x04, // pid = 260
        0x00, 0x03, 'a' as u8, '/' as u8, '+' as u8, // topic filter = 'a/+'
        0x00, // qos = 0
        0x00, 0x01, '#' as u8, // topic filter = '#'
        0x01, // qos = 1
        0x00, 0x05, 'a' as u8, '/' as u8, 'b' as u8, '/' as u8, 'c' as u8, // topic filter = 'a/b/c'
        0x02 // qos = 2
    ]);

    let packet = stream.read_packet().unwrap();

    assert_eq!(packet, Packet::Subscribe(Subscribe {
        pid: PacketIdentifier(260),
        topics: vec![
            SubscribeTopic { topic_path: "a/+".to_owned(), qos: QoS::AtMostOnce },
            SubscribeTopic { topic_path: "#".to_owned(), qos: QoS::AtLeastOnce },
            SubscribeTopic { topic_path: "a/b/c".to_owned(), qos: QoS::ExactlyOnce }
        ]
    }));
}

#[test]
fn read_packet_unsubscribe_test() {
    let mut stream = stream(vec![
        0b10100010, 17,
        0x00, 0x0F, // pid = 15
        0x00, 0x03, 'a' as u8, '/' as u8, '+' as u8, // topic filter = 'a/+'
        0x00, 0x01, '#' as u8, // topic filter = '#'
        0x00, 0x05, 'a' as u8, '/' as u8, 'b' as u8, '/' as u8, 'c' as u8, // topic filter = 'a/b/c'
    ]);

    let packet = stream.read_packet().unwrap();

    assert_eq!(packet, Packet::Unsubscribe(Unsubscribe {
        pid: PacketIdentifier(15),
        topics: vec![
            "a/+".to_owned(),
            "#".to_owned(),
            "a/b/c".to_owned()
        ]
    }));
}

#[test]
fn read_packet_suback_test() {
    let mut stream = stream(vec![
        0x90, 4,
        0x00, 0x0F, // pid = 15
        0x01, 0x80
    ]);

    let packet = stream.read_packet().unwrap();

    assert_eq!(packet, Packet::Suback(Suback {
        pid: PacketIdentifier(15),
        return_codes: vec![SubscribeReturnCodes::Success(QoS::AtLeastOnce), SubscribeReturnCodes::Failure]
    }));
}

#[test]
fn read_packet_atoms_and_acks() {
    assert_eq!(stream(vec![0xC0, 0]).read_packet().unwrap(), Packet::Pingreq);
    assert_eq!(stream(vec![0xD0, 0]).read_packet().unwrap(), Packet::Pingresp);
    assert_eq!(stream(vec![0xE0, 0]).read_packet().unwrap(), Packet::Disconnect);
    assert_eq!(
        stream(vec![0x50, 2, 0x01, 0x02]).read_packet().unwrap(),
        Packet::Pubrec(PacketIdentifier(258))
    );
    assert_eq!(
        stream(vec![0x62, 2, 0xFF, 0xFF]).read_packet().unwrap(),
        Packet::Pubrel(PacketIdentifier(65535))
    );
    assert_eq!(
        stream(vec![0x70, 2, 0x00, 0x07]).read_packet().unwrap(),
        Packet::Pubcomp(PacketIdentifier(7))
    );
    assert_eq!(
        stream(vec![0xB0, 2, 0x00, 0x00]).read_packet().unwrap(),
        Packet::Unsuback(PacketIdentifier(0))
    );
}

#[test]
fn read_packet_takes_one_packet_and_leaves_the_rest() {
    let mut stream = stream(vec![0x40, 2, 0, 1, 0xD0, 0, 0x40, 2, 0, 2]);
    assert_eq!(stream.read_packet().unwrap(), Packet::Puback(PacketIdentifier(1)));
    assert_eq!(stream.read_packet().unwrap(), Packet::Pingresp);
    assert_eq!(stream.read_packet().unwrap(), Packet::Puback(PacketIdentifier(2)));
    assert_eq!(stream.read_packet().unwrap_err(), Error::UnexpectedEof);
}

#[test]
fn read_packet_error_leaves_the_stream_as_it_was() {
    let mut stream = stream(vec![0x40, 2, 0]);
    assert_eq!(stream.read_packet().unwrap_err(), Error::UnexpectedEof);
    stream.feed(&[9]);
    assert_eq!(stream.read_packet().unwrap(), Packet::Puback(PacketIdentifier(9)));
}

#[test]
fn read_packet_errors() {
    assert_eq!(read_error(vec![]), Error::UnexpectedEof);
    assert_eq!(read_error(vec![0x40]), Error::UnexpectedEof);
    assert_eq!(read_error(vec![0x00, 0]), Error::UnsupportedPacketType);
    assert_eq!(read_error(vec![0xF0, 0]), Error::UnsupportedPacketType);
    assert_eq!(read_error(vec![0x40, 0]), Error::PayloadRequired);
    assert_eq!(read_error(vec![0x10, 0]), Error::PayloadRequired);
    assert_eq!(read_error(vec![0x40, 3, 0, 1, 2]), Error::PayloadSizeIncorrect);
    assert_eq!(read_error(vec![0x40, 1, 0]), Error::PayloadSizeIncorrect);
    assert_eq!(read_error(vec![0x20, 3, 0, 0, 0]), Error::PayloadSizeIncorrect);
    assert_eq!(read_error(vec![0xB0, 1, 0]), Error::PayloadSizeIncorrect);
    assert_eq!(read_error(vec![0xC0, 1, 0]), Error::IncorrectPacketFormat);
    assert_eq!(read_error(vec![0xD0, 1, 0]), Error::IncorrectPacketFormat);
    assert_eq!(read_error(vec![0xE0, 1, 0]), Error::UnsupportedPacketType);
    assert_eq!(read_error(vec![0x20, 2, 0, 6]), Error::UnsupportedConnectReturnCode);
    assert_eq!(read_error(vec![0x40, 2, 0]), Error::UnexpectedEof);
    assert_eq!(read_error(vec![0x30, 0x80, 0x80, 0x80, 0x80, 0x01]), Error::MalformedRemainingLength);
    assert_eq!(read_error(vec![0x30, 0x80, 0x80, 0x80, 0x80]), Error::UnexpectedEof);
    // tier 3 in a PUBLISH header
    assert_eq!(read_error(vec![0x36, 5, 0, 1, b'a', 0, 1]), Error::UnsupportedQualityOfService);
    // a topic name that is not UTF-8
    assert_eq!(read_error(vec![0x30, 4, 0, 2, 0xC3, 0x28]), Error::TopicNameMustNotContainNonUtf8);
    // a string that runs past the body
    assert_eq!(read_error(vec![0x30, 3, 0, 2, b'a', b'b']), Error::UnexpectedEof);
    // requested tier 3 in a SUBSCRIBE
    assert_eq!(read_error(vec![0x82, 6, 0, 1, 0, 1, b'a', 3]), Error::UnsupportedQualityOfService);
    // a SUBSCRIBE that ends before the tier
    assert_eq!(read_error(vec![0x82, 5, 0, 1, 0, 1, b'a']), Error::UnexpectedEof);
    // return code 3 in a SUBACK
    assert_eq!(read_error(vec![0x90, 3, 0, 1, 3]), Error::UnsupportedQualityOfService);
}

fn connect_with(name: &[u8], level: u8, flags: u8, tail: &[u8]) -> Vec<u8> {
    let mut body = vec![0, name.len() as u8];
    body.extend_from_slice(name);
    body.push(level);
    body.push(flags);
    body.extend_from_slice(&[0, 10, 0, 1, b'c']);
    body.extend_from_slice(tail);
    let mut packet = vec![0x10, body.len() as u8];
    packet.extend_from_slice(&body);
    packet
}

#[test]
fn read_connect_errors() {
    assert_eq!(read_error(connect_with(b"MQTT", 3, 0, &[])), Error::UnsupportedProtocolVersion);
    assert_eq!(read_error(connect_with(b"MQIsdp", 4, 0, &[])), Error::UnsupportedProtocolVersion);
    assert_eq!(read_error(connect_with(b"MQTX", 4, 0, &[])), Error::UnsupportedProtocolName);
    // reserved bit
    assert_eq!(read_error(connect_with(b"MQTT", 4, 0x01, &[])), Error::IncorrectPacketFormat);
    // will tier without will
    assert_eq!(read_error(connect_with(b"MQTT", 4, 0x08, &[])), Error::IncorrectPacketFormat);
    // will retain without will
    assert_eq!(read_error(connect_with(b"MQTT", 4, 0x20, &[])), Error::IncorrectPacketFormat);
    // password without username
    assert_eq!(
        read_error(connect_with(b"MQTT", 4, 0x40, &[0, 1, b'p'])),
        Error::IncorrectPacketFormat
    );
    // will tier 3
    assert_eq!(
        read_error(connect_with(b"MQTT", 4, 0x1C, &[0, 1, b't', 0, 1, b'm'])),
        Error::UnsupportedQualityOfService
    );
    // will flag without the will
    assert_eq!(read_error(connect_with(b"MQTT", 4, 0x04, &[])), Error::UnexpectedEof);
    // username alone is fine
    let packet = stream(connect_with(b"MQTT", 4, 0x80, &[0, 1, b'u'])).read_packet().unwrap();
    match packet {
        Packet::Connect(connect) => {
            assert_eq!(connect.username, Some("u".to_owned()));
            assert_eq!(connect.password, None);
            assert_eq!(connect.client_id, "c");
            assert!(!connect.clean_session);
        }
        other => panic!("{:?}", other),
    }
}

#[test]
fn suback_codes_are_read_by_their_bits() {
    let packet = stream(vec![0x90, 6, 0, 1, 0, 2, 0x81, 0x04]).read_packet().unwrap();
    assert_eq!(packet, Packet::Suback(Suback {
        pid: PacketIdentifier(1),
        return_codes: vec![
            SubscribeReturnCodes::Success(QoS::AtMostOnce),
            SubscribeReturnCodes::Success(QoS::ExactlyOnce),
            SubscribeReturnCodes::Failure,
            SubscribeReturnCodes::Success(QoS::AtMostOnce),
        ]
    }));
}

#[test]
fn remaining_length_is_read_in_up_to_four_bytes() {
    assert_eq!(decode_remaining_length(&[0x00], 0, 1), Ok((0, 1)));
    assert_eq!(decode_remaining_length(&[0x7F], 0, 1), Ok((127, 1)));
    assert_eq!(decode_remaining_length(&[0x80, 0x01], 0, 2), Ok((128, 2)));
    assert_eq!(decode_remaining_length(&[0xFF, 0x7F], 0, 2), Ok((16383, 2)));
    assert_eq!(decode_remaining_length(&[0x80, 0x80, 0x01], 0, 3), Ok((16384, 3)));
    assert_eq!(decode_remaining_length(&[0xFF, 0xFF, 0x7F], 0, 3), Ok((2097151, 3)));
    assert_eq!(decode_remaining_length(&[0x80, 0x80, 0x80, 0x01], 0, 4), Ok((2097152, 4)));
    assert_eq!(decode_remaining_length(&[0xFF, 0xFF, 0xFF, 0x7F], 0, 4), Ok((268435455, 4)));
    assert_eq!(
        decode_remaining_length(&[0xFF, 0xFF, 0xFF, 0xFF, 0x7F], 0, 5),
        Err(Error::MalformedRemainingLength)
    );
    assert_eq!(decode_remaining_length(&[0xFF, 0xFF], 0, 2), Err(Error::UnexpectedEof));
    assert_eq!(decode_remaining_length(&[9, 0x85, 0x01, 9], 1, 3), Ok((133, 3)));
}

#[test]
fn decode_packet_gives_the_position_behind_the_packet() {
    let data = [0xFF, 0x40, 2, 0, 5, 0xC0, 0];
    let (packet, next) = decode_packet(&data, 1, data.len()).unwrap();
    assert_eq!(packet, Packet::Puback(PacketIdentifier(5)));
    assert_eq!(next, 5);
    let (packet, next) = decode_packet(&data, next, data.len()).unwrap();
    assert_eq!(packet, Packet::Pingreq);
    assert_eq!(next, 7);
    assert_eq!(decode_packet(&data, 1, 4).unwrap_err(), Error::UnexpectedEof);
}

#[test]
fn reading_by_parts() {
    let mut stream = stream(vec![
        0x32, 0x85, 0x01, 0x00, 0x03, b'a', b'/', b'b', 0x00, 0x0A, 1, 2, 3,
    ]);
    let first = stream.read_payload(1).unwrap();
    assert_eq!(first, vec![0x32]);
    assert_eq!(stream.read_remaining_length(), Ok(133));
    assert_eq!(stream.read_mqtt_string(), Ok("a/b".to_owned()));
    assert_eq!(stream.read_payload(2), Ok(vec![0x00, 0x0A]));
    assert_eq!(stream.read_payload(4), Err(Error::UnexpectedEof));
    assert_eq!(stream.read_payload(3), Ok(vec![1, 2, 3]));
    assert_eq!(stream.read_payload(0), Ok(vec![]));
}

#[test]
fn reading_bodies_by_header() {
    let mut stream = stream(vec![0x00, 0x03, b'a', b'/', b'b', 0x00, 0x0A, 0xF1, 0x01, 0x00]);
    let publish = stream.read_publish(Header::new(0x3B, 8).unwrap()).unwrap();
    assert_eq!(publish, Publish {
        dup: true,
        qos: QoS::AtLeastOnce,
        retain: true,
        topic_name: "a/b".to_owned(),
        pid: Some(PacketIdentifier(10)),
        payload: Arc::new(vec![0xF1]),
    });
    assert_eq!(
        stream.read_connack(Header::new(0x20, 3).unwrap()),
        Err(Error::UnexpectedEof)
    );
    assert_eq!(
        stream.read_connack(Header::new(0x20, 1).unwrap()),
        Err(Error::PayloadSizeIncorrect)
    );
    assert_eq!(
        stream.read_connack(Header::new(0x20, 2).unwrap()),
        Ok(Connack { session_present: true, code: ConnectReturnCode::Accepted })
    );
}
