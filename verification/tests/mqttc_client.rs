use std::sync::Arc;
use std::time::Duration;
use rustmq::mqtt3::{
    Connack, ConnectReturnCode, Error as MqttError, LastWill, Message, MqttRead, MqttWrite,
    Packet, PacketIdentifier, Protocol, Publish, QoS, Suback, SubscribeReturnCodes,
    SubscribeTopic, ToTopicPath,
};
use rustmq::mqttc::store::{Error as StorageError, MemoryStorage, Result as StorageResult, Store};
use rustmq::mqttc::{
    Client, ClientOptions, ClientState, Error, Incoming, PubOpt, PubSub, ReconnectMethod, Result,
};
use rustmq::netopt::{ErrorKind, MockStream};

fn bytes_of(packets: &[Packet]) -> Vec<u8> {
    let mut bytes = Vec::new();
    for packet in packets {
        bytes.write_packet(packet).unwrap();
    }
    bytes
}

fn accepted() -> Packet {
    Packet::Connack(Connack { session_present: false, code: ConnectReturnCode::Accepted })
}

fn options() -> ClientOptions {
    let mut options = ClientOptions::new();
    options.set_client_id("test".to_owned());
    options
}

fn with_stores() -> ClientOptions {
    let mut options = options();
    options.set_incomming_store(MemoryStorage::new());
    options.set_outgoing_store(MemoryStorage::new());
    options
}

fn connected(options: ClientOptions) -> Client {
    let mut client = options.connect(0).unwrap();
    client.take_outgoing();
    assert!(matches!(client.accept(Incoming::Packet(accepted())), Ok(None)));
    assert_eq!(client.state, ClientState::Connected);
    client
}

fn publish(qos: QoS, pid: Option<u16>, topic: &str, payload: &[u8]) -> Packet {
    Packet::Publish(Publish {
        dup: false,
        qos: qos,
        retain: false,
        topic_name: topic.to_owned(),
        pid: pid.map(PacketIdentifier),
        payload: Arc::new(payload.to_vec()),
    })
}

/// One turn of waiting for a message, with the stream as transport.
fn wait(client: &mut Client, stream: &mut MockStream, now: u64) -> Result<Option<Message>> {
    loop {
        let handled = match client.read_timeout(now) {
            Err(e) => Err(e),
            Ok(_) => {
                let incoming = match stream.read_packet() {
                    Ok(packet) => Incoming::Packet(packet),
                    Err(e) => Incoming::Mqtt(e),
                };
                client.accept(incoming)
            }
        };
        let outgoing = client.take_outgoing();
        if !outgoing.is_empty() {
            stream.write(&outgoing);
            client.flushed(now);
        }
        if let Some(result) = client.after_accept(handled) {
            return result;
        }
    }
}

#[test]
fn client_connect_test() {
    let mut stream = MockStream::with_read_data("127.0.0.1:1883", vec![0b00100000, 0x02, 0x01, 0x00]);
    let options = ClientOptions::new();
    // Connect and create MQTT client
    let mut client = options.connect(0).unwrap();
    let result = wait(&mut client, &mut stream, 0);
    assert!(matches!(result, Ok(None)));
    assert_eq!(client.state, ClientState::Connected);
    assert!(client.session_present());
    // what was sent is a CONNECT with a generated client identifier
    let mut sent = MockStream::with_read_data("client", stream.drain_write_data());
    match sent.read_packet().unwrap() {
        Packet::Connect(connect) => {
            assert_eq!(connect.protocol, Protocol::MQTT(4));
            assert_eq!(connect.keep_alive, 30);
            assert!(connect.clean_session);
            assert!(connect.client_id.starts_with("mqttc_"));
            let number = &connect.client_id["mqttc_".len()..];
            assert_eq!(number.parse::<u32>().unwrap().to_string(), number);
            assert_eq!(connect.last_will, None);
            assert_eq!(connect.username, None);
            assert_eq!(connect.password, None);
        }
        other => panic!("{:?}", other),
    }
}

#[test]
fn connect_sends_the_options() {
    let mut options = ClientOptions::new();
    options
        .set_protocol(Protocol::MQIsdp(3))
        .set_keep_alive(10)
        .set_client_id("test".to_owned())
        .set_clean_session(false)
        .set_username("rust".to_owned())
        .set_password("mq".to_owned())
        .set_last_will_opt(Some(LastWill {
            topic: "/a".to_owned(),
            message: "offline".to_owned(),
            qos: QoS::AtLeastOnce,
            retain: false,
        }))
        .set_reconnect(ReconnectMethod::ReconnectAfter(Duration::from_secs(1)));
    let mut client = options.connect(5).unwrap();
    assert_eq!(client.state, ClientState::Handshake);
    assert_eq!(client.last_flush, 5);
    assert_eq!(client.reconnect_delay(), Some(Duration::from_secs(1)));
    assert_eq!(
        client.take_outgoing(),
        vec![
            0x10, 41, 0x00, 0x06, b'M', b'Q', b'I', b's', b'd', b'p', 0x03, 0b11001100, 0x00, 0x0a,
            0x00, 0x04, b't', b'e', b's', b't', 0x00, 0x02, b'/', b'a', 0x00, 0x07, b'o', b'f',
            b'f', b'l', b'i', b'n', b'e', 0x00, 0x04, b'r', b'u', b's', b't', 0x00, 0x02, b'm',
            b'q'
        ]
    );
    assert!(client.take_outgoing().is_empty());
}

#[test]
fn generated_client_ids_are_decimal() {
    let mut options = ClientOptions::new();
    options.set_generated_client_id(0);
    assert_eq!(options.client_id, Some("mqttc_0".to_owned()));
    options.set_generated_client_id(7);
    assert_eq!(options.client_id, Some("mqttc_7".to_owned()));
    options.set_generated_client_id(1203);
    assert_eq!(options.client_id, Some("mqttc_1203".to_owned()));
    options.set_generated_client_id(4294967295);
    assert_eq!(options.client_id, Some("mqttc_4294967295".to_owned()));
    options.generate_client_id();
    assert!(options.client_id.unwrap().starts_with("mqttc_"));
}

#[test]
fn set_last_will_takes_a_topic_name() {
    let mut options = ClientOptions::new();
    assert_eq!(
        options.set_last_will("a/+", "bye".to_owned(), PubOpt::at_least_once()),
        Err(Error::Mqtt(MqttError::TopicNameMustNotContainWildcard))
    );
    assert_eq!(options.last_will, None);
    assert_eq!(
        options.set_last_will("a#", "bye".to_owned(), PubOpt::at_least_once()),
        Err(Error::Mqtt(MqttError::InvalidTopicPath))
    );
    assert_eq!(
        options.set_last_will("a/b", "bye".to_owned(), PubOpt::new(QoS::ExactlyOnce, true)),
        Ok(())
    );
    assert_eq!(
        options.last_will,
        Some(LastWill {
            topic: "a/b".to_owned(),
            message: "bye".to_owned(),
            qos: QoS::ExactlyOnce,
            retain: true
        })
    );
}

#[test]
fn handshake_refused() {
    let mut client = options().connect(0).unwrap();
    let refused = Packet::Connack(Connack {
        session_present: false,
        code: ConnectReturnCode::BadUsernamePassword,
    });
    assert_eq!(
        client.accept(Incoming::Packet(refused)).unwrap_err(),
        Error::ConnectionRefused(ConnectReturnCode::BadUsernamePassword)
    );
    assert_eq!(client.state, ClientState::Disconnected);
}

#[test]
fn handshake_failed() {
    let mut client = options().connect(0).unwrap();
    assert_eq!(client.accept(Incoming::Packet(Packet::Pingresp)).unwrap_err(), Error::HandshakeFailed);
    assert_eq!(client.state, ClientState::Disconnected);
    // without a connection a read means that the connection is lost
    assert_eq!(client.accept(Incoming::Packet(accepted())).unwrap_err(), Error::Disconnected);
    assert_eq!(client._parse_packet(accepted()).unwrap_err(), Error::ConnectionAbort);
}

#[test]
fn qos2_ingress() {
    let mut stream = MockStream::with_read_data(
        "peer",
        bytes_of(&[
            accepted(),
            publish(QoS::ExactlyOnce, Some(7), "t", b"x"),
            Packet::Pubrel(PacketIdentifier(7)),
        ]),
    );
    let mut client = with_stores().connect(0).unwrap();
    client.take_outgoing();

    // CONNACK: connected, with nothing outstanding
    assert!(matches!(wait(&mut client, &mut stream, 0), Ok(None)));
    assert_eq!(client.state, ClientState::Connected);
    // then PUBLISH, which is not delivered, then PUBREL, which delivers
    let delivered = wait(&mut client, &mut stream, 0).unwrap().unwrap();
    assert_eq!(delivered.pid, Some(PacketIdentifier(7)));
    assert_eq!(delivered.qos, QoS::ExactlyOnce);
    assert_eq!(delivered.topic.path(), "t");
    assert_eq!(*delivered.payload, b"x".to_vec());
    assert_eq!(stream.drain_write_data(), vec![0x50, 0x02, 0x00, 0x07]);

    client.complete(PacketIdentifier(7)).unwrap();
    assert_eq!(client.take_outgoing(), vec![0x70, 0x02, 0x00, 0x07]);
    assert!(client._normalized());
    // nothing more is delivered
    assert_eq!(wait(&mut client, &mut stream, 0).unwrap_err(), Error::Disconnected);
}

#[test]
fn qos2_duplicates_are_delivered_once() {
    let mut client = connected(with_stores());
    for _ in 0..3 {
        let r = client.accept(Incoming::Packet(publish(QoS::ExactlyOnce, Some(7), "t", b"x")));
        assert!(matches!(r, Ok(None)));
        assert_eq!(client.take_outgoing(), vec![0x50, 0x02, 0x00, 0x07]);
    }
    assert_eq!(client.incomming_rec.len(), 1);
    let delivered = client.accept(Incoming::Packet(Packet::Pubrel(PacketIdentifier(7)))).unwrap();
    assert_eq!(delivered.unwrap().pid, Some(PacketIdentifier(7)));
    assert_eq!(client.incomming_rel.len(), 1);
    assert!(client.take_outgoing().is_empty());
    assert_eq!(
        client.accept(Incoming::Packet(Packet::Pubrel(PacketIdentifier(7)))).unwrap_err(),
        Error::UnhandledPubrel(PacketIdentifier(7))
    );
    assert_eq!(client.state, ClientState::Disconnected);
}

#[test]
fn qos2_ingress_needs_the_incoming_store() {
    let mut client = connected(options());
    assert_eq!(
        client.accept(Incoming::Packet(publish(QoS::ExactlyOnce, Some(7), "t", b"x"))).unwrap_err(),
        Error::IncommingStorageAbsent
    );
    assert_eq!(client.state, ClientState::Connected);
    assert!(client.take_outgoing().is_empty());
    assert_eq!(client.complete(PacketIdentifier(7)).unwrap_err(), Error::ProtocolViolation);
}

#[test]
fn complete_takes_the_last_released() {
    let mut client = connected(with_stores());
    for pid in [7u16, 8] {
        client.accept(Incoming::Packet(publish(QoS::ExactlyOnce, Some(pid), "t", b"x"))).unwrap();
    }
    for pid in [7u16, 8] {
        let m = client.accept(Incoming::Packet(Packet::Pubrel(PacketIdentifier(pid)))).unwrap();
        assert_eq!(m.unwrap().pid, Some(PacketIdentifier(pid)));
    }
    client.take_outgoing();
    assert_eq!(client.complete(PacketIdentifier(7)).unwrap_err(), Error::ProtocolViolation);
    assert_eq!(client.incomming_rel.len(), 2);
    assert_eq!(client.complete(PacketIdentifier(8)), Ok(()));
    assert_eq!(client.complete(PacketIdentifier(7)), Ok(()));
    assert_eq!(client.take_outgoing(), vec![0x70, 2, 0, 8, 0x70, 2, 0, 7]);
    assert_eq!(client.complete(PacketIdentifier(7)).unwrap_err(), Error::ProtocolViolation);
}

#[test]
fn pubrel_for_a_message_that_the_store_lost_is_completed() {
    let mut client = connected(with_stores());
    client.accept(Incoming::Packet(publish(QoS::ExactlyOnce, Some(7), "t", b"x"))).unwrap();
    client.take_outgoing();
    client.opts.incomming_store.as_mut().unwrap().delete(PacketIdentifier(7)).unwrap();
    let r = client.accept(Incoming::Packet(Packet::Pubrel(PacketIdentifier(7))));
    assert!(matches!(r, Ok(None)));
    assert_eq!(client.take_outgoing(), vec![0x70, 0x02, 0x00, 0x07]);
    assert!(client.incomming_rel.is_empty());
    assert!(client.incomming_rec.is_empty());
}

#[test]
fn qos0_and_qos1_ingress() {
    let mut client = connected(options());
    let m = client.accept(Incoming::Packet(publish(QoS::AtMostOnce, None, "a/b", &[1, 2]))).unwrap();
    assert_eq!(*m.unwrap().payload, vec![1, 2]);
    assert!(client.take_outgoing().is_empty());
    let m = client.accept(Incoming::Packet(publish(QoS::AtLeastOnce, Some(10), "a/b", &[3]))).unwrap();
    let m = m.unwrap();
    assert_eq!(m.pid, Some(PacketIdentifier(10)));
    assert_eq!(*m.payload, vec![3]);
    assert_eq!(client.take_outgoing(), vec![0x40, 0x02, 0x00, 0x0A]);
    assert!(client.incomming_pub.is_empty());
    assert!(client._normalized());
    // a topic with a wildcard is no topic name
    assert_eq!(
        client.accept(Incoming::Packet(publish(QoS::AtMostOnce, None, "a/#", &[]))).unwrap_err(),
        Error::Mqtt(MqttError::TopicNameMustNotContainWildcard)
    );
    assert_eq!(client.state, ClientState::Connected);
    // a tier above 0 without a packet identifier
    assert_eq!(
        client.accept(Incoming::Packet(publish(QoS::AtLeastOnce, None, "a", &[]))).unwrap_err(),
        Error::ProtocolViolation
    );
    assert_eq!(client.state, ClientState::Disconnected);
}

#[test]
fn publish_qos0() {
    let mut client = connected(options());
    client.publish("a/b", vec![1u8, 2], PubOpt::at_most_once()).unwrap();
    assert_eq!(client.take_outgoing(), vec![0x30, 0x07, 0x00, 0x03, 0x61, 0x2F, 0x62, 0x01, 0x02]);
    assert!(client._normalized());
    assert_eq!(client.last_pid, PacketIdentifier(0));
}

#[test]
fn publish_qos1_waits_for_puback() {
    let mut client = connected(with_stores());
    client.publish("a/b", vec![0xF1u8, 0xF2, 0xF3, 0xF4], PubOpt::at_least_once()).unwrap();
    assert_eq!(
        client.take_outgoing(),
        vec![0x32, 0x0B, 0x00, 0x03, 0x61, 0x2F, 0x62, 0x00, 0x01, 0xF1, 0xF2, 0xF3, 0xF4]
    );
    assert_eq!(client.outgoing_ack.len(), 1);
    assert_eq!(client.outgoing_ack[0].pid, Some(PacketIdentifier(1)));
    assert!(!client._normalized());
    let kept = client.opts.outgoing_store.as_mut().unwrap().get(PacketIdentifier(1)).unwrap();
    assert_eq!(kept.topic.path(), "a/b");

    // other packets leave it waiting
    client.accept(Incoming::Packet(Packet::Pingresp)).unwrap();
    client.accept(Incoming::Packet(publish(QoS::AtMostOnce, None, "t", &[]))).unwrap();
    assert_eq!(client.accept(Incoming::Io(ErrorKind::TimedOut)).unwrap_err(), Error::Timeout);
    assert_eq!(client.outgoing_ack.len(), 1);

    // and so does a lost connection, with what the store keeps
    client.set_reconnect(ReconnectMethod::ReconnectAfter(Duration::from_millis(5)));
    assert!(matches!(client.accept(Incoming::Io(ErrorKind::ConnectionReset)), Ok(None)));
    assert_eq!(client.state, ClientState::Disconnected);
    client.reconnect().unwrap();
    assert_eq!(client.state, ClientState::Handshake);
    client.accept(Incoming::Packet(accepted())).unwrap();
    assert_eq!(client.outgoing_ack.len(), 1);
    assert!(client.opts.outgoing_store.as_mut().unwrap().get(PacketIdentifier(1)).is_ok());
    client.take_outgoing();

    assert!(matches!(client.accept(Incoming::Packet(Packet::Puback(PacketIdentifier(1)))), Ok(None)));
    assert!(client.outgoing_ack.is_empty());
    assert_eq!(
        client.opts.outgoing_store.as_mut().unwrap().get(PacketIdentifier(1)).unwrap_err(),
        StorageError::NotFound(PacketIdentifier(1))
    );
}

#[test]
fn publish_qos1_needs_no_store() {
    let mut client = connected(options());
    client.publish("a", "x", PubOpt::at_least_once()).unwrap();
    client.publish("a", "y".to_string(), PubOpt::at_least_once()).unwrap();
    assert_eq!(client.last_pid, PacketIdentifier(2));
    assert_eq!(
        client.take_outgoing(),
        vec![0x32, 6, 0, 1, b'a', 0, 1, b'x', 0x32, 6, 0, 1, b'a', 0, 2, b'y']
    );
    assert!(matches!(client.accept(Incoming::Packet(Packet::Puback(PacketIdentifier(1)))), Ok(None)));
    assert!(matches!(client.accept(Incoming::Packet(Packet::Puback(PacketIdentifier(2)))), Ok(None)));
    assert!(client._normalized());
}

#[test]
fn puback_out_of_order_is_unhandled() {
    let mut client = connected(options());
    client.publish("a", "x", PubOpt::at_least_once()).unwrap();
    client.publish("a", "y", PubOpt::at_least_once()).unwrap();
    assert_eq!(
        client.accept(Incoming::Packet(Packet::Puback(PacketIdentifier(2)))).unwrap_err(),
        Error::UnhandledPuback(PacketIdentifier(2))
    );
    assert_eq!(client.state, ClientState::Disconnected);
    assert_eq!(client.outgoing_ack.len(), 1);
}

#[test]
fn unhandled_acknowledgements() {
    let pid = PacketIdentifier(3);
    let mut client = connected(with_stores());
    assert_eq!(
        client.accept(Incoming::Packet(Packet::Puback(pid))).unwrap_err(),
        Error::UnhandledPuback(pid)
    );
    let mut client = connected(with_stores());
    assert_eq!(
        client.accept(Incoming::Packet(Packet::Pubrec(pid))).unwrap_err(),
        Error::UnhandledPubrec(pid)
    );
    let mut client = connected(with_stores());
    assert_eq!(
        client.accept(Incoming::Packet(Packet::Pubrel(pid))).unwrap_err(),
        Error::UnhandledPubrel(pid)
    );
    let mut client = connected(with_stores());
    assert_eq!(
        client.accept(Incoming::Packet(Packet::Pubcomp(pid))).unwrap_err(),
        Error::UnhandledPubcomp(pid)
    );
    assert_eq!(client.state, ClientState::Disconnected);
    let mut client = connected(with_stores());
    assert_eq!(
        client.accept(Incoming::Packet(Packet::Unsuback(pid))).unwrap_err(),
        Error::ProtocolViolation
    );
    let mut client = connected(with_stores());
    let suback = Packet::Suback(Suback { pid: pid, return_codes: vec![] });
    assert_eq!(client.accept(Incoming::Packet(suback)).unwrap_err(), Error::ProtocolViolation);
    let mut client = connected(with_stores());
    assert_eq!(client.accept(Incoming::Packet(accepted())).unwrap_err(), Error::AlreadyConnected);
    assert_eq!(client.state, ClientState::Disconnected);
    let mut client = connected(with_stores());
    assert_eq!(
        client.accept(Incoming::Packet(Packet::Pingreq)).unwrap_err(),
        Error::UnrecognizedPacket
    );
    assert_eq!(client.state, ClientState::Disconnected);
}

#[test]
fn publish_qos2_flow() {
    let mut client = connected(with_stores());
    client.publish("t", vec![9u8], PubOpt::exactly_once() | PubOpt::retain()).unwrap();
    assert_eq!(client.take_outgoing(), vec![0x35, 6, 0, 1, b't', 0, 1, 9]);
    assert_eq!(client.outgoing_rec.len(), 1);
    assert!(client.opts.outgoing_store.as_mut().unwrap().get(PacketIdentifier(1)).is_ok());

    assert!(matches!(client.accept(Incoming::Packet(Packet::Pubrec(PacketIdentifier(1)))), Ok(None)));
    assert_eq!(client.take_outgoing(), vec![0x62, 2, 0, 1]);
    assert!(client.outgoing_rec.is_empty());
    assert_eq!(client.outgoing_comp.len(), 1);
    assert!(client.opts.outgoing_store.as_mut().unwrap().get(PacketIdentifier(1)).is_err());

    assert_eq!(
        client.accept(Incoming::Packet(Packet::Pubcomp(PacketIdentifier(2)))).unwrap_err(),
        Error::UnhandledPubcomp(PacketIdentifier(2))
    );
    let mut client = connected(with_stores());
    client.publish("t", vec![9u8], PubOpt::exactly_once()).unwrap();
    client.accept(Incoming::Packet(Packet::Pubrec(PacketIdentifier(1)))).unwrap();
    assert!(matches!(client.accept(Incoming::Packet(Packet::Pubcomp(PacketIdentifier(1)))), Ok(None)));
    assert!(client.outgoing_comp.is_empty());
}

#[test]
fn publish_qos2_needs_the_outgoing_store() {
    let mut client = connected(options());
    assert_eq!(
        client.publish("t", vec![9u8], PubOpt::exactly_once()).unwrap_err(),
        Error::OutgoingStorageAbsent
    );
    assert!(client.take_outgoing().is_empty());
    assert_eq!(client.last_pid, PacketIdentifier(0));
    assert!(client.outgoing_rec.is_empty());
}

#[test]
fn publish_rejects_what_is_no_topic_name() {
    let mut client = connected(options());
    assert_eq!(
        client.publish("a/+", vec![9u8], PubOpt::at_most_once()).unwrap_err(),
        Error::Mqtt(MqttError::TopicNameMustNotContainWildcard)
    );
    assert_eq!(
        client.publish("a+", vec![9u8], PubOpt::at_least_once()).unwrap_err(),
        Error::Mqtt(MqttError::InvalidTopicPath)
    );
    let name = "a/b".to_topic_path().unwrap();
    assert_eq!(client.publish(name, Arc::new(vec![1u8]), PubOpt::at_most_once()), Ok(()));
    assert_eq!(client.take_outgoing(), vec![0x30, 6, 0, 3, b'a', b'/', b'b', 1]);
}

#[test]
fn publish_that_is_too_long_changes_nothing() {
    let mut client = connected(with_stores());
    assert_eq!(
        client.publish("t", vec![0u8; 268435455], PubOpt::at_least_once()).unwrap_err(),
        Error::Mqtt(MqttError::PayloadTooLong)
    );
    assert!(client.take_outgoing().is_empty());
    assert!(client.outgoing_ack.is_empty());
    assert_eq!(client.last_pid, PacketIdentifier(0));
    assert!(client.opts.outgoing_store.as_mut().unwrap().get(PacketIdentifier(1)).is_err());
}

#[test]
fn packet_identifiers_increase_and_skip_zero() {
    let mut client = connected(options());
    client.last_pid = PacketIdentifier(65533);
    assert_eq!(client._next_pid(), PacketIdentifier(65534));
    client.subscribe("a").unwrap();
    assert_eq!(client.last_pid, PacketIdentifier(65535));
    client.publish("a", "x", PubOpt::at_least_once()).unwrap();
    assert_eq!(client.last_pid, PacketIdentifier(1));
    client.unsubscribe("a").unwrap();
    assert_eq!(client.last_pid, PacketIdentifier(2));
    assert_eq!(client.await_suback[0].pid, PacketIdentifier(65535));
    assert_eq!(client.outgoing_ack[0].pid, Some(PacketIdentifier(1)));
    assert_eq!(client.await_unsuback[0].pid, PacketIdentifier(2));
}

#[test]
fn subscribe_and_suback() {
    let mut client = connected(options());
    client
        .subscribe(vec![
            SubscribeTopic { topic_path: "a/+".to_owned(), qos: QoS::AtMostOnce },
            SubscribeTopic { topic_path: "#".to_owned(), qos: QoS::AtLeastOnce },
            SubscribeTopic { topic_path: "a/b/c".to_owned(), qos: QoS::ExactlyOnce },
        ])
        .unwrap();
    assert_eq!(
        client.take_outgoing(),
        vec![
            0x82, 0x14, 0x00, 0x01, 0x00, 0x03, 0x61, 0x2F, 0x2B, 0x00, 0x00, 0x01, 0x23, 0x01,
            0x00, 0x05, 0x61, 0x2F, 0x62, 0x2F, 0x63, 0x02
        ]
    );
    assert!(!client._normalized());
    let suback = Packet::Suback(Suback {
        pid: PacketIdentifier(1),
        return_codes: vec![
            SubscribeReturnCodes::Success(QoS::AtMostOnce),
            SubscribeReturnCodes::Failure,
            SubscribeReturnCodes::Success(QoS::AtLeastOnce),
        ],
    });
    assert!(matches!(client.accept(Incoming::Packet(suback)), Ok(None)));
    assert!(client._normalized());
    let recorded: Vec<(String, QoS, u16)> = client
        .subscriptions
        .iter()
        .map(|sub| (sub.topic_path.path(), sub.qos, sub.pid.0))
        .collect();
    assert_eq!(
        recorded,
        vec![("a/+".to_owned(), QoS::AtMostOnce, 1), ("a/b/c".to_owned(), QoS::AtLeastOnce, 1)]
    );

    // a filter that is subscribed again is recorded once, with the new grant
    client.subscribe(("a/+", QoS::ExactlyOnce)).unwrap();
    client.subscribe(("x".to_owned(), QoS::AtMostOnce)).unwrap();
    client.subscribe("y").unwrap();
    let ack = |pid: u16, qos: QoS| {
        Incoming::Packet(Packet::Suback(Suback {
            pid: PacketIdentifier(pid),
            return_codes: vec![SubscribeReturnCodes::Success(qos)],
        }))
    };
    client.accept(ack(2, QoS::ExactlyOnce)).unwrap();
    client.accept(ack(3, QoS::AtMostOnce)).unwrap();
    client.accept(ack(4, QoS::AtLeastOnce)).unwrap();
    let recorded: Vec<(String, QoS, u16)> = client
        .subscriptions
        .iter()
        .map(|sub| (sub.topic_path.path(), sub.qos, sub.pid.0))
        .collect();
    assert_eq!(
        recorded,
        vec![
            ("a/+".to_owned(), QoS::ExactlyOnce, 2),
            ("a/b/c".to_owned(), QoS::AtLeastOnce, 1),
            ("x".to_owned(), QoS::AtMostOnce, 3),
            ("y".to_owned(), QoS::AtLeastOnce, 4)
        ]
    );
    client.take_outgoing();

    client.unsubscribe(vec!["a/b/c".to_owned(), "nothing".to_owned(), "y".to_owned()]).unwrap();
    assert_eq!(
        client.take_outgoing(),
        vec![
            0xA2, 21, 0, 5, 0, 5, b'a', b'/', b'b', b'/', b'c', 0, 7, b'n', b'o', b't', b'h',
            b'i', b'n', b'g', 0, 1, b'y'
        ]
    );
    assert!(matches!(
        client.accept(Incoming::Packet(Packet::Unsuback(PacketIdentifier(5)))),
        Ok(None)
    ));
    let left: Vec<String> = client.subscriptions.iter().map(|sub| sub.topic_path.path()).collect();
    assert_eq!(left, vec!["a/+".to_owned(), "x".to_owned()]);
    assert!(client._normalized());
}

#[test]
fn suback_must_match_the_subscribe() {
    let mut client = connected(options());
    client.subscribe("a").unwrap();
    let short = Packet::Suback(Suback { pid: PacketIdentifier(1), return_codes: vec![] });
    assert_eq!(client.accept(Incoming::Packet(short)).unwrap_err(), Error::ProtocolViolation);
    assert_eq!(client.state, ClientState::Disconnected);
    assert!(client.await_suback.is_empty());

    let mut client = connected(options());
    client.subscribe("a").unwrap();
    let other = Packet::Suback(Suback {
        pid: PacketIdentifier(2),
        return_codes: vec![SubscribeReturnCodes::Failure],
    });
    assert_eq!(client.accept(Incoming::Packet(other)).unwrap_err(), Error::ProtocolViolation);

    // a granted filter that is no topic path
    let mut client = connected(options());
    client.subscribe(vec![
        SubscribeTopic { topic_path: "ok".to_owned(), qos: QoS::AtMostOnce },
        SubscribeTopic { topic_path: "a+".to_owned(), qos: QoS::AtMostOnce },
    ]).unwrap();
    let granted = Packet::Suback(Suback {
        pid: PacketIdentifier(1),
        return_codes: vec![
            SubscribeReturnCodes::Success(QoS::AtMostOnce),
            SubscribeReturnCodes::Success(QoS::AtMostOnce),
        ],
    });
    assert_eq!(
        client.accept(Incoming::Packet(granted)).unwrap_err(),
        Error::Mqtt(MqttError::InvalidTopicPath)
    );
    assert!(client.subscriptions.is_empty());
    assert_eq!(client.state, ClientState::Connected);
}

#[test]
fn resubscription_on_reconnect() {
    let mut options = with_stores();
    options.set_reconnect(ReconnectMethod::ReconnectAfter(Duration::from_secs(1)));
    options.set_clean_session(false);
    let mut client = connected(options);
    client.subscribe(vec![
        SubscribeTopic { topic_path: "a/+".to_owned(), qos: QoS::ExactlyOnce },
        SubscribeTopic { topic_path: "b".to_owned(), qos: QoS::ExactlyOnce },
    ]).unwrap();
    client.accept(Incoming::Packet(Packet::Suback(Suback {
        pid: PacketIdentifier(1),
        return_codes: vec![
            SubscribeReturnCodes::Success(QoS::AtLeastOnce),
            SubscribeReturnCodes::Success(QoS::AtMostOnce),
        ],
    }))).unwrap();
    client.subscribe("pending").unwrap();
    client.take_outgoing();

    // the end of the data: the connection is lost
    assert!(matches!(client.accept(Incoming::Mqtt(MqttError::UnexpectedEof)), Ok(None)));
    assert_eq!(client.state, ClientState::Disconnected);
    assert!(client.await_suback.is_empty());
    assert_eq!(client.subscriptions.len(), 2);
    assert!(client.take_outgoing().is_empty());

    client.reconnect().unwrap();
    let mut sent = MockStream::with_read_data("client", client.take_outgoing());
    assert!(matches!(sent.read_packet().unwrap(), Packet::Connect(_)));
    assert_eq!(sent.read_packet().unwrap_err(), MqttError::UnexpectedEof);

    assert!(matches!(client.accept(Incoming::Packet(accepted())), Ok(None)));
    assert_eq!(client.state, ClientState::Connected);
    assert_eq!(
        client.take_outgoing(),
        vec![0x82, 12, 0, 3, 0, 3, b'a', b'/', b'+', 1, 0, 1, b'b', 0]
    );
    assert_eq!(client.await_suback.len(), 1);
    // the first handshake asks for nothing
    let mut fresh = with_stores().connect(0).unwrap();
    fresh.take_outgoing();
    fresh.accept(Incoming::Packet(accepted())).unwrap();
    assert!(fresh.take_outgoing().is_empty());
    // reconnecting while connected does nothing
    assert_eq!(fresh.reconnect(), Ok(()));
    assert!(fresh.take_outgoing().is_empty());
    assert_eq!(fresh.state, ClientState::Connected);
}

#[test]
fn keep_alive() {
    let mut options = options();
    options.set_keep_alive(10);
    let mut client = connected(options);
    client.flushed(1_000);
    assert_eq!(client.read_timeout(1_000), Ok(Some(10_000)));
    assert_eq!(client.read_timeout(4_500), Ok(Some(6_500)));
    assert_eq!(client.read_timeout(10_999), Ok(Some(1)));
    assert_eq!(client.read_timeout(11_000), Err(Error::Timeout));
    assert_eq!(client.read_timeout(500), Ok(Some(10_000)));

    // the deadline passes: a PINGREQ goes out
    assert!(client.after_accept(Err(Error::Timeout)).is_none());
    assert!(client.await_ping);
    assert_eq!(client.take_outgoing(), vec![0xC0, 0x00]);
    client.flushed(11_000);
    assert_eq!(client.read_timeout(12_000), Ok(Some(9_000)));
    assert!(!client._normalized());

    // the answer comes in time
    assert!(matches!(client.accept(Incoming::Packet(Packet::Pingresp)), Ok(None)));
    assert!(!client.await_ping);
    assert_eq!(client.after_accept(Ok(None)).map(|r| r.map(|m| m.is_none())), Some(Ok(true)));

    // or it does not: the session gives the transport up
    assert!(client.after_accept(Err(Error::Timeout)).is_none());
    client.take_outgoing();
    assert!(client.after_accept(Err(Error::Timeout)).is_none());
    assert_eq!(client.state, ClientState::Disconnected);
    assert!(!client.await_ping);
    assert!(client.take_outgoing().is_empty());
    assert_eq!(client.read_timeout(99_000), Ok(None));
}

#[test]
fn keep_alive_during_the_handshake() {
    let mut client = options().connect(0).unwrap();
    assert_eq!(client.read_timeout(29_999), Ok(Some(1)));
    assert_eq!(client.read_timeout(30_000), Err(Error::Timeout));
    let r = client.after_accept(Err(Error::Timeout));
    assert_eq!(r.map(|r| r.map(|m| m.is_none())), Some(Err(Error::Timeout)));
    assert_eq!(client.state, ClientState::Handshake);
}

#[test]
fn after_accept_returns_messages_and_errors() {
    let mut client = connected(options());
    let m = client.accept(Incoming::Packet(publish(QoS::AtMostOnce, None, "a", &[1])));
    let returned = client.after_accept(m).unwrap().unwrap().unwrap();
    assert_eq!(*returned.payload, vec![1]);
    let r = client.after_accept(Err(Error::ProtocolViolation));
    assert_eq!(r.map(|r| r.map(|m| m.is_none())), Some(Err(Error::ProtocolViolation)));
    client.subscribe("a").unwrap();
    assert!(client.after_accept(Ok(None)).is_none());
}

#[test]
fn transport_errors() {
    let mut client = connected(options());
    assert_eq!(client.accept(Incoming::Io(ErrorKind::WouldBlock)).unwrap_err(), Error::Timeout);
    assert_eq!(client.state, ClientState::Connected);
    assert_eq!(
        client.accept(Incoming::Io(ErrorKind::Other)).unwrap_err(),
        Error::Io(ErrorKind::Other)
    );
    assert_eq!(client.state, ClientState::Disconnected);

    for kind in [
        ErrorKind::UnexpectedEof,
        ErrorKind::ConnectionRefused,
        ErrorKind::ConnectionReset,
        ErrorKind::ConnectionAborted,
    ] {
        let mut client = connected(options());
        assert_eq!(client.accept(Incoming::Io(kind)).unwrap_err(), Error::Disconnected);
        assert_eq!(client.state, ClientState::Disconnected);
        assert_eq!(client.reconnect_delay(), None);
    }

    let mut client = connected(options());
    assert_eq!(
        client.accept(Incoming::Mqtt(MqttError::UnsupportedPacketType)).unwrap_err(),
        Error::Mqtt(MqttError::UnsupportedPacketType)
    );
    assert_eq!(client.state, ClientState::Disconnected);
}

#[test]
fn terminate_keeps_queues_and_subscriptions() {
    let mut client = connected(with_stores());
    client.publish("a", "x", PubOpt::at_least_once()).unwrap();
    client.publish("a", "y", PubOpt::exactly_once()).unwrap();
    client.subscribe("a").unwrap();
    client.unsubscribe("b").unwrap();
    client.ping().unwrap();
    client.terminate();
    assert_eq!(client.state, ClientState::Disconnected);
    assert!(!client.await_ping);
    assert!(client.await_suback.is_empty());
    assert!(client.await_unsuback.is_empty());
    assert_eq!(client.outgoing_ack.len(), 1);
    assert_eq!(client.outgoing_rec.len(), 1);
    assert!(client.opts.outgoing_store.as_mut().unwrap().get(PacketIdentifier(2)).is_ok());
}

#[test]
fn disconnect_leaves_what_is_to_be_sent() {
    let mut client = connected(options());
    client.publish("a", "x", PubOpt::at_most_once()).unwrap();
    assert_eq!(client.disconnect(), Ok(vec![0x30, 4, 0, 1, b'a', b'x', 0xE0, 0x00]));
}

/// A store that fails on demand.
struct Flaky {
    kept: MemoryStorage,
    fail: Arc<std::sync::atomic::AtomicBool>,
}

impl Flaky {
    fn failing(&self) -> bool {
        self.fail.load(std::sync::atomic::Ordering::SeqCst)
    }
}

impl Store for Flaky {
    fn contents(&self) -> vstd::map::Map<u16, rustmq::mqtt3::msg::MessageView> {
        panic!("only for proofs")
    }

    fn reliable(&self) -> bool {
        panic!("only for proofs")
    }

    fn put(&mut self, message: Message) -> StorageResult<()> {
        if self.failing() {
            return Err(StorageError::Unavailable(message.pid.unwrap()));
        }
        self.kept.put(message)
    }

    fn get(&mut self, pid: PacketIdentifier) -> StorageResult<Message> {
        if self.failing() {
            return Err(StorageError::Unavailable(pid));
        }
        self.kept.get(pid)
    }

    fn delete(&mut self, pid: PacketIdentifier) -> StorageResult<()> {
        if self.failing() {
            return Err(StorageError::Unavailable(pid));
        }
        self.kept.delete(pid)
    }
}

#[test]
fn a_store_that_fails_leaves_the_session_as_it_was() {
    let fail = Arc::new(std::sync::atomic::AtomicBool::new(false));
    let flaky = || Box::new(Flaky { kept: *MemoryStorage::new(), fail: fail.clone() });
    let mut options = options();
    options.set_incomming_store(flaky());
    options.set_outgoing_store(flaky());
    let mut client = connected(options);
    let set = |failing: bool| fail.store(failing, std::sync::atomic::Ordering::SeqCst);
    let unavailable = |pid: u16| Error::Storage(StorageError::Unavailable(PacketIdentifier(pid)));

    set(true);
    assert_eq!(client.publish("a", "x", PubOpt::exactly_once()).unwrap_err(), unavailable(1));
    assert_eq!(client.publish("a", "x", PubOpt::at_least_once()).unwrap_err(), unavailable(1));
    assert_eq!(client.last_pid, PacketIdentifier(0));
    assert!(client.outgoing_rec.is_empty() && client.outgoing_ack.is_empty());
    let incoming = || Incoming::Packet(publish(QoS::ExactlyOnce, Some(7), "t", b"x"));
    assert_eq!(client.accept(incoming()).unwrap_err(), unavailable(7));
    assert!(client.incomming_rec.is_empty());
    assert!(client.take_outgoing().is_empty());
    assert_eq!(client.state, ClientState::Connected);

    set(false);
    client.publish("a", "x", PubOpt::exactly_once()).unwrap();
    client.publish("a", "y", PubOpt::at_least_once()).unwrap();
    client.accept(incoming()).unwrap();
    client.take_outgoing();

    set(true);
    let pubrec = || Incoming::Packet(Packet::Pubrec(PacketIdentifier(1)));
    let puback = || Incoming::Packet(Packet::Puback(PacketIdentifier(2)));
    let pubrel = || Incoming::Packet(Packet::Pubrel(PacketIdentifier(7)));
    assert_eq!(client.accept(pubrec()).unwrap_err(), unavailable(1));
    assert_eq!(client.accept(puback()).unwrap_err(), unavailable(2));
    assert_eq!(client.accept(pubrel()).unwrap_err(), unavailable(7));
    assert_eq!(client.outgoing_rec.len(), 1);
    assert_eq!(client.outgoing_ack.len(), 1);
    assert_eq!(client.incomming_rec.len(), 1);
    assert!(client.take_outgoing().is_empty());

    set(false);
    assert!(matches!(client.accept(pubrec()), Ok(None)));
    assert!(matches!(client.accept(puback()), Ok(None)));
    assert!(matches!(client.accept(pubrel()), Ok(Some(_))));
    client.take_outgoing();
    set(true);
    assert_eq!(client.complete(PacketIdentifier(7)).unwrap_err(), unavailable(7));
    assert_eq!(client.incomming_rel.len(), 1);
    set(false);
    assert_eq!(client.complete(PacketIdentifier(7)), Ok(()));
    assert_eq!(client.take_outgoing(), vec![0x70, 2, 0, 7]);
}

#[test]
fn session_error_descriptions() {
    assert_eq!(Error::Timeout.description(), "Timeout");
    assert_eq!(Error::UnhandledPubrel(PacketIdentifier(1)).description(), "UnhandledPubrel");
    assert_eq!(Error::Mqtt(MqttError::PayloadTooLong).description(), "Payload Too Long");
    assert_eq!(
        Error::Storage(StorageError::NotFound(PacketIdentifier(1))).description(),
        "Packet not found"
    );
    assert_eq!(
        Error::Storage(StorageError::Unavailable(PacketIdentifier(1))).description(),
        "Packet unavailable"
    );
    assert_eq!(Error::Io(ErrorKind::Other).description(), "IO error");
    assert_eq!(Error::from(MqttError::UnexpectedEof), Error::Mqtt(MqttError::UnexpectedEof));
    assert_eq!(Error::from(ErrorKind::TimedOut), Error::Io(ErrorKind::TimedOut));
    assert_eq!(
        Error::from(StorageError::NotFound(PacketIdentifier(2))),
        Error::Storage(StorageError::NotFound(PacketIdentifier(2)))
    );
}
