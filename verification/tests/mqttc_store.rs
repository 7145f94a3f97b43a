use std::sync::Arc;
use rustmq::mqtt3::{Message, PacketIdentifier, QoS, SubscribeTopic, TopicPath};
use rustmq::mqttc::store::{Error, MemoryStorage, Store};
use rustmq::mqttc::{Subscription, ToPayload, ToSubTopics, ToUnSubTopics};

fn message(pid: u16, payload: &[u8]) -> Message {
    Message {
        topic: TopicPath::from_str("a/b").unwrap(),
        qos: QoS::ExactlyOnce,
        retain: false,
        pid: Some(PacketIdentifier(pid)),
        payload: Arc::new(payload.to_vec()),
    }
}

#[test]
fn memory_storage_keeps_messages_by_packet_identifier() {
    let mut store = MemoryStorage::new();
    assert_eq!(store.get(PacketIdentifier(1)).unwrap_err(), Error::NotFound(PacketIdentifier(1)));
    store.put(message(1, b"one")).unwrap();
    store.put(message(2, b"two")).unwrap();
    assert_eq!(*store.get(PacketIdentifier(1)).unwrap().payload, b"one".to_vec());
    assert_eq!(*store.get(PacketIdentifier(2)).unwrap().payload, b"two".to_vec());
    store.put(message(1, b"uno")).unwrap();
    assert_eq!(*store.get(PacketIdentifier(1)).unwrap().payload, b"uno".to_vec());
    store.delete(PacketIdentifier(1)).unwrap();
    assert_eq!(store.get(PacketIdentifier(1)).unwrap_err(), Error::NotFound(PacketIdentifier(1)));
    assert_eq!(store.get(PacketIdentifier(2)).unwrap().pid, Some(PacketIdentifier(2)));
    store.delete(PacketIdentifier(9)).unwrap();
    assert_eq!(Error::NotFound(PacketIdentifier(1)).description(), "Packet not found");
}

#[test]
fn subscription_to_subscribe_topic() {
    let sub = Subscription {
        pid: PacketIdentifier(3),
        topic_path: TopicPath::from_str("a/#").unwrap(),
        qos: QoS::AtLeastOnce,
    };
    assert_eq!(
        sub.to_subscribe_topic(),
        SubscribeTopic { topic_path: "a/#".to_owned(), qos: QoS::AtLeastOnce }
    );
}

#[test]
fn what_can_be_subscribed() {
    let one = SubscribeTopic { topic_path: "a".to_owned(), qos: QoS::ExactlyOnce };
    assert_eq!(one.to_subscribe_topics().unwrap(), vec![one.clone()]);
    let two = vec![one.clone(), SubscribeTopic { topic_path: "b".to_owned(), qos: QoS::AtMostOnce }];
    assert_eq!(two.to_subscribe_topics().unwrap(), two);
    assert_eq!(
        "x/y".to_subscribe_topics().unwrap(),
        vec![SubscribeTopic { topic_path: "x/y".to_owned(), qos: QoS::AtLeastOnce }]
    );
    assert_eq!(
        ("x", QoS::ExactlyOnce).to_subscribe_topics().unwrap(),
        vec![SubscribeTopic { topic_path: "x".to_owned(), qos: QoS::ExactlyOnce }]
    );
    assert_eq!(
        ("x".to_owned(), QoS::AtMostOnce).to_subscribe_topics().unwrap(),
        vec![SubscribeTopic { topic_path: "x".to_owned(), qos: QoS::AtMostOnce }]
    );
    assert_eq!("x".to_unsubscribe_topics().unwrap(), vec!["x".to_owned()]);
    let filters = vec!["a".to_owned(), "b".to_owned()];
    assert_eq!(filters.to_unsubscribe_topics().unwrap(), filters);
}

#[test]
fn what_can_be_a_payload() {
    assert_eq!(*"h\u{e9}".to_payload(), vec![b'h', 0xC3, 0xA9]);
    assert_eq!(*"abc".to_string().to_payload(), b"abc".to_vec());
    assert_eq!(*vec![1u8, 2].to_payload(), vec![1, 2]);
    let shared = Arc::new(vec![3u8]);
    assert!(Arc::ptr_eq(&shared.to_payload(), &shared));
}
