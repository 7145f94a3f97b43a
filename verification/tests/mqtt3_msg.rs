use std::sync::Arc;
use rustmq::mqtt3::{
    Error, LastWill, Message, PacketIdentifier, Publish, QoS, ToTopicPath,
};

#[test]
fn message_to_pub_test() {
    let msg = Message {
        topic: "/a/b".to_topic_path().unwrap(),
        qos: QoS::AtLeastOnce,
        retain: false,
        pid: Some(PacketIdentifier(1)),
        payload: Arc::new(vec![0x80, 0x40]),
    };
    let publish = msg.to_pub(None, false);

    assert_eq!(publish, Publish {
        dup: false,
        qos: QoS::AtLeastOnce,
        retain: false,
        topic_name: "/a/b".to_owned(),
        pid: Some(PacketIdentifier(1)),
        payload: Arc::new(vec![0x80, 0x40]),
    });
}

#[test]
fn message_from_pub_test() {
    let publish = Publish {
        dup: true,
        qos: QoS::ExactlyOnce,
        retain: true,
        topic_name: "/a/b/c".to_owned(),
        pid: Some(PacketIdentifier(2)),
        payload: Arc::new(vec![0x10, 0x20, 0x30]),
    };
    let msg = Message::from_pub(publish).unwrap();

    assert_eq!(msg.topic.path(), "/a/b/c".to_string());
    assert_eq!(msg.qos, QoS::ExactlyOnce);
    assert_eq!(msg.pid, Some(PacketIdentifier(2)));
    assert_eq!(msg.payload, Arc::new(vec![0x10, 0x20, 0x30]));
    assert!(msg.retain);
}

#[test]
fn to_topic_name_test() {
    assert!("/a/b/c".to_topic_name().is_ok());
    assert!("/a/+/c".to_topic_name().is_err());
}

#[test]
fn message_from_pub_rejects_wildcards_and_bad_paths() {
    let publish = |topic: &str| Publish {
        dup: false,
        qos: QoS::AtMostOnce,
        retain: false,
        topic_name: topic.to_owned(),
        pid: None,
        payload: Arc::new(vec![]),
    };
    assert_eq!(
        Message::from_pub(publish("a/#")).unwrap_err(),
        Error::TopicNameMustNotContainWildcard
    );
    assert_eq!(
        Message::from_pub(publish("a/+/b")).unwrap_err(),
        Error::TopicNameMustNotContainWildcard
    );
    assert_eq!(Message::from_pub(publish("a+/b")).unwrap_err(), Error::InvalidTopicPath);
}

#[test]
fn message_to_pub_overrides_the_tier() {
    let msg = Message {
        topic: "t".to_topic_path().unwrap(),
        qos: QoS::ExactlyOnce,
        retain: true,
        pid: Some(PacketIdentifier(9)),
        payload: Arc::new(vec![1]),
    };
    let publish = msg.to_pub(Some(QoS::AtLeastOnce), true);
    assert_eq!(publish.qos, QoS::AtLeastOnce);
    assert!(publish.dup);
    assert!(publish.retain);
    assert_eq!(publish.pid, Some(PacketIdentifier(9)));
    assert_eq!(publish.topic_name, "t");
}

#[test]
fn message_transform_replaces_what_is_given() {
    let msg = Message {
        topic: "t".to_topic_path().unwrap(),
        qos: QoS::AtMostOnce,
        retain: false,
        pid: None,
        payload: Arc::new(vec![1, 2]),
    };
    let same = msg.transform(None, None);
    assert_eq!(same.pid, None);
    assert_eq!(same.qos, QoS::AtMostOnce);
    let other = msg.transform(Some(PacketIdentifier(4)), Some(QoS::ExactlyOnce));
    assert_eq!(other.pid, Some(PacketIdentifier(4)));
    assert_eq!(other.qos, QoS::ExactlyOnce);
    assert_eq!(other.payload, Arc::new(vec![1, 2]));
    assert_eq!(other.topic.path(), "t");
    let kept = other.transform(None, Some(QoS::AtLeastOnce));
    assert_eq!(kept.pid, Some(PacketIdentifier(4)));
    assert_eq!(kept.qos, QoS::AtLeastOnce);
}

#[test]
fn message_from_last_will() {
    let will = LastWill {
        topic: "/a".to_owned(),
        message: "offline".to_owned(),
        qos: QoS::AtLeastOnce,
        retain: true,
    };
    let msg = Message::from_last_will(will);
    assert_eq!(msg.topic.path(), "/a");
    assert_eq!(msg.qos, QoS::AtLeastOnce);
    assert!(msg.retain);
    assert_eq!(msg.pid, None);
    assert_eq!(*msg.payload, b"offline".to_vec());
}
