use std::sync::Arc;
use rustmq::client::cli::{
    parse_number, parse_protocol, parse_tls, parse_tls_version, CommandKind, PublishArgs,
    SubscribeArgs, TlsArgs,
};
use rustmq::client::command::{Tls, TlsVersion};
use rustmq::client::{CliError, LocalStorage, PublishCommand, SubscribeCommand, CLI};
use rustmq::mqtt3::{LastWill, Message, PacketIdentifier, Protocol, QoS, SubscribeTopic, TopicPath};
use rustmq::mqttc::store::{Error as StorageError, Store};

fn strings(args: &[&str]) -> Vec<String> {
    args.iter().map(|s| s.to_string()).collect()
}

fn cli() -> CLI {
    CLI::new(strings(&["mqttc", "pub"]))
}

fn no_tls() -> TlsArgs {
    TlsArgs { tls: None, cafile: None, key: None, cert: None, unverified: false }
}

fn publish_args() -> PublishArgs {
    PublishArgs {
        help: false,
        topic: Some("a/b".to_owned()),
        message: None,
        file: None,
        qos: None,
        retain: false,
        address: None,
        port: None,
        keep_alive: None,
        client_id: None,
        username: None,
        password: None,
        version: None,
        debug: false,
        tls: no_tls(),
    }
}

fn subscribe_args() -> SubscribeArgs {
    SubscribeArgs {
        help: false,
        address: None,
        port: None,
        qos: None,
        keep_alive: None,
        reconnect: false,
        client_id: None,
        username: None,
        password: None,
        version: None,
        clean_session: false,
        debug: false,
        silence: false,
        will_message: None,
        will_topic: None,
        will_qos: None,
        will_retain: false,
        tls: no_tls(),
        free: vec![],
    }
}

#[test]
fn cli_splits_the_arguments() {
    let cli = CLI::new(strings(&["mqttc", "sub", "-q", "1", "a/#"]));
    assert_eq!(cli.program, "mqttc");
    assert_eq!(cli.command, "sub");
    assert_eq!(cli.arguments, strings(&["-q", "1", "a/#"]));
    assert_eq!(cli.parse(), CommandKind::Subscribe);
    let cli = CLI::new(strings(&["mqttc"]));
    assert_eq!(cli.command, "help");
    assert!(cli.arguments.is_empty());
    assert_eq!(cli.parse(), CommandKind::Help);
    assert_eq!(CLI::new(strings(&["m", "subscribe"])).parse(), CommandKind::Subscribe);
    assert_eq!(CLI::new(strings(&["m", "publish"])).parse(), CommandKind::Publish);
    assert_eq!(CLI::new(strings(&["m", "pub", "x"])).parse(), CommandKind::Publish);
    assert_eq!(CLI::new(strings(&["m", "help"])).parse(), CommandKind::Help);
    assert_eq!(CLI::new(strings(&["m", "publ"])).parse(), CommandKind::Help);
}

#[test]
fn numbers_are_decimal() {
    assert_eq!(parse_number("0", 255), Some(0));
    assert_eq!(parse_number("7", 255), Some(7));
    assert_eq!(parse_number("255", 255), Some(255));
    assert_eq!(parse_number("256", 255), None);
    assert_eq!(parse_number("+12", 255), Some(12));
    assert_eq!(parse_number("007", 255), Some(7));
    assert_eq!(parse_number("65535", 65535), Some(65535));
    assert_eq!(parse_number("65536", 65535), None);
    assert_eq!(parse_number("99999999999999999999", 65535), None);
    assert_eq!(parse_number("", 255), None);
    assert_eq!(parse_number("+", 255), None);
    assert_eq!(parse_number("-1", 255), None);
    assert_eq!(parse_number("1a", 255), None);
    assert_eq!(parse_number(" 1", 255), None);
    assert_eq!(parse_number("1 ", 255), None);
    assert_eq!(parse_number("++1", 255), None);
    assert_eq!(parse_number("\u{663}", 255), None);
    for s in ["0", "+5", "18", "1883", "65535", "65536", "x", "", "12x", "+"] {
        assert_eq!(parse_number(s, 65535), s.parse::<u16>().ok().map(|v| v as u32));
    }
}

#[test]
fn tiers_versions_and_protocols() {
    let cli = cli();
    assert_eq!(cli.parse_qos("0"), Ok(QoS::AtMostOnce));
    assert_eq!(cli.parse_qos("1"), Ok(QoS::AtLeastOnce));
    assert_eq!(cli.parse_qos("2"), Ok(QoS::ExactlyOnce));
    assert_eq!(cli.parse_qos("3"), Err(CliError::QosUnsupported));
    assert_eq!(cli.parse_qos("255"), Err(CliError::QosUnsupported));
    assert_eq!(cli.parse_qos("256"), Err(CliError::QosFormat));
    assert_eq!(cli.parse_qos("one"), Err(CliError::QosFormat));
    assert_eq!(parse_protocol("3.1"), Ok(Protocol::MQIsdp(3)));
    assert_eq!(parse_protocol("3.1.1"), Ok(Protocol::MQTT(4)));
    assert_eq!(parse_protocol("5"), Err(CliError::ProtocolVersion));
    assert_eq!(parse_tls_version("1"), Ok(TlsVersion::Tlsv1));
    assert_eq!(parse_tls_version("1.1"), Ok(TlsVersion::Tlsv1_1));
    assert_eq!(parse_tls_version("1.2"), Ok(TlsVersion::Tlsv1_2));
    assert_eq!(parse_tls_version("tlsv1"), Err(CliError::TlsVersion));
}

#[test]
fn tls_options() {
    assert_eq!(parse_tls(no_tls()), Ok(None));
    let args = TlsArgs {
        tls: Some("1.2".to_owned()),
        cafile: Some("ca.pem".to_owned()),
        key: None,
        cert: Some("cert.pem".to_owned()),
        unverified: true,
    };
    assert_eq!(
        parse_tls(args),
        Ok(Some(Tls {
            version: TlsVersion::Tlsv1_2,
            cafile: Some("ca.pem".to_owned()),
            key: None,
            cert: Some("cert.pem".to_owned()),
            verify: false,
        }))
    );
    // without the option `tls` the files are passed over
    let args = TlsArgs { cafile: Some("ca.pem".to_owned()), ..no_tls() };
    assert_eq!(parse_tls(args), Ok(None));
    let args = TlsArgs { tls: Some("2".to_owned()), ..no_tls() };
    assert_eq!(parse_tls(args), Err(CliError::TlsVersion));
}

#[test]
fn publish_defaults() {
    let command = cli().publish_parse(publish_args()).unwrap();
    assert_eq!(
        command,
        PublishCommand {
            topic: "a/b".to_owned(),
            debug: false,
            ..PublishCommand::default()
        }
    );
    let default = PublishCommand::default();
    assert_eq!(default.topic, "nodefault");
    assert_eq!(default.qos, QoS::AtLeastOnce);
    assert_eq!(default.address, "localhost");
    assert_eq!(default.port, 1883);
    assert_eq!(default.keep_alive, 30);
    assert_eq!(default.protocol, Protocol::MQTT(4));
    assert!(default.debug);
    assert!(!default.retain);
}

#[test]
fn publish_options() {
    let args = PublishArgs {
        message: Some("hi".to_owned()),
        qos: Some("2".to_owned()),
        retain: true,
        address: Some("broker".to_owned()),
        port: Some("8883".to_owned()),
        keep_alive: Some("5".to_owned()),
        client_id: Some("me".to_owned()),
        username: Some("u".to_owned()),
        password: Some("p".to_owned()),
        version: Some("3.1".to_owned()),
        debug: true,
        tls: TlsArgs { tls: Some("1.1".to_owned()), ..no_tls() },
        ..publish_args()
    };
    assert_eq!(
        cli().publish_parse(args),
        Ok(PublishCommand {
            topic: "a/b".to_owned(),
            message: Some("hi".to_owned()),
            file: None,
            qos: QoS::ExactlyOnce,
            retain: true,
            address: "broker".to_owned(),
            port: 8883,
            keep_alive: 5,
            debug: true,
            protocol: Protocol::MQIsdp(3),
            client_id: Some("me".to_owned()),
            username: Some("u".to_owned()),
            password: Some("p".to_owned()),
            tls: Some(Tls {
                version: TlsVersion::Tlsv1_1,
                cafile: None,
                key: None,
                cert: None,
                verify: true
            }),
        })
    );
}

#[test]
fn publish_errors_in_their_order() {
    let cli = cli();
    let broken = || PublishArgs {
        topic: None,
        message: Some("m".to_owned()),
        file: Some("f".to_owned()),
        qos: Some("9".to_owned()),
        port: Some("x".to_owned()),
        keep_alive: Some("70000".to_owned()),
        version: Some("4".to_owned()),
        tls: TlsArgs { tls: Some("3".to_owned()), ..no_tls() },
        ..publish_args()
    };
    assert_eq!(cli.publish_parse(PublishArgs { help: true, ..broken() }), Err(CliError::Help));
    assert_eq!(cli.publish_parse(broken()), Err(CliError::TopicRequired));
    let topic = || Some("t".to_owned());
    assert_eq!(
        cli.publish_parse(PublishArgs { topic: topic(), ..broken() }),
        Err(CliError::MessageAndFile)
    );
    assert_eq!(
        cli.publish_parse(PublishArgs { topic: topic(), file: None, ..broken() }),
        Err(CliError::QosUnsupported)
    );
    assert_eq!(
        cli.publish_parse(PublishArgs {
            topic: topic(),
            file: None,
            qos: Some("q".to_owned()),
            ..broken()
        }),
        Err(CliError::QosFormat)
    );
    assert_eq!(
        cli.publish_parse(PublishArgs { topic: topic(), file: None, qos: None, ..broken() }),
        Err(CliError::PortFormat)
    );
    assert_eq!(
        cli.publish_parse(PublishArgs {
            topic: topic(),
            file: None,
            qos: None,
            port: None,
            ..broken()
        }),
        Err(CliError::KeepAliveFormat)
    );
    assert_eq!(
        cli.publish_parse(PublishArgs {
            topic: topic(),
            file: None,
            qos: None,
            port: None,
            keep_alive: None,
            ..broken()
        }),
        Err(CliError::ProtocolVersion)
    );
    assert_eq!(
        cli.publish_parse(PublishArgs {
            topic: topic(),
            file: None,
            qos: None,
            port: None,
            keep_alive: None,
            version: None,
            ..broken()
        }),
        Err(CliError::TlsVersion)
    );
}

#[test]
fn subscribe_defaults() {
    let command = cli().subscribe_parse(subscribe_args()).unwrap();
    assert_eq!(
        command,
        SubscribeCommand { clean_session: false, debug: false, ..SubscribeCommand::default() }
    );
    let default = SubscribeCommand::default();
    assert_eq!(
        default.topics,
        vec![SubscribeTopic { topic_path: "#".to_owned(), qos: QoS::ExactlyOnce }]
    );
    assert_eq!(default.address, "localhost");
    assert_eq!(default.port, 1883);
    assert!(default.clean_session);
    assert!(default.debug);
    assert_eq!(default.keep_alive, 30);
    assert_eq!(default.protocol, Protocol::MQTT(4));
}

#[test]
fn subscribe_options() {
    let args = SubscribeArgs {
        address: Some("broker".to_owned()),
        port: Some("+1884".to_owned()),
        qos: Some("1".to_owned()),
        keep_alive: Some("0".to_owned()),
        reconnect: true,
        client_id: Some("me".to_owned()),
        version: Some("3.1.1".to_owned()),
        clean_session: true,
        silence: true,
        will_message: Some("gone".to_owned()),
        will_topic: Some("w".to_owned()),
        will_qos: Some("2".to_owned()),
        will_retain: true,
        free: strings(&["a/+", "b"]),
        ..subscribe_args()
    };
    assert_eq!(
        cli().subscribe_parse(args),
        Ok(SubscribeCommand {
            topics: vec![
                SubscribeTopic { topic_path: "a/+".to_owned(), qos: QoS::AtLeastOnce },
                SubscribeTopic { topic_path: "b".to_owned(), qos: QoS::AtLeastOnce },
            ],
            address: "broker".to_owned(),
            port: 1884,
            clean_session: true,
            last_will: Some(LastWill {
                topic: "w".to_owned(),
                message: "gone".to_owned(),
                qos: QoS::ExactlyOnce,
                retain: true
            }),
            keep_alive: 0,
            log_file: None,
            debug: false,
            reconnect: true,
            protocol: Protocol::MQTT(4),
            silence: true,
            client_id: Some("me".to_owned()),
            username: None,
            password: None,
            limit: None,
            retain: false,
            topic_filters: vec![],
            tls: None,
        })
    );
    // the tier goes to the default topic too
    let args = SubscribeArgs { qos: Some("0".to_owned()), ..subscribe_args() };
    assert_eq!(
        cli().subscribe_parse(args).unwrap().topics,
        vec![SubscribeTopic { topic_path: "#".to_owned(), qos: QoS::AtMostOnce }]
    );
}

#[test]
fn subscribe_will() {
    let cli = cli();
    let will = |topic: Option<&str>, message: Option<&str>, qos: Option<&str>| SubscribeArgs {
        will_topic: topic.map(str::to_owned),
        will_message: message.map(str::to_owned),
        will_qos: qos.map(str::to_owned),
        ..subscribe_args()
    };
    assert_eq!(
        cli.subscribe_parse(will(Some("w"), Some("m"), None)).unwrap().last_will,
        Some(LastWill {
            topic: "w".to_owned(),
            message: "m".to_owned(),
            qos: QoS::AtMostOnce,
            retain: false
        })
    );
    assert_eq!(
        cli.subscribe_parse(will(Some("w"), None, None)),
        Err(CliError::WillIncomplete)
    );
    assert_eq!(cli.subscribe_parse(will(None, Some("m"), None)).unwrap().last_will, None);
    assert_eq!(cli.subscribe_parse(will(None, None, Some("x"))).unwrap().last_will, None);
    assert_eq!(
        cli.subscribe_parse(will(Some("w"), Some("m"), Some("x"))),
        Err(CliError::QosFormat)
    );
    assert_eq!(
        cli.subscribe_parse(will(Some("w"), Some("m"), Some("3"))),
        Err(CliError::QosUnsupported)
    );
}

#[test]
fn subscribe_errors_in_their_order() {
    let cli = cli();
    let broken = || SubscribeArgs {
        port: Some("x".to_owned()),
        keep_alive: Some("-1".to_owned()),
        version: Some("4".to_owned()),
        will_topic: Some("w".to_owned()),
        qos: Some("9".to_owned()),
        tls: TlsArgs { tls: Some("3".to_owned()), ..no_tls() },
        ..subscribe_args()
    };
    assert_eq!(cli.subscribe_parse(SubscribeArgs { help: true, ..broken() }), Err(CliError::Help));
    assert_eq!(cli.subscribe_parse(broken()), Err(CliError::PortFormat));
    assert_eq!(
        cli.subscribe_parse(SubscribeArgs { port: None, ..broken() }),
        Err(CliError::KeepAliveFormat)
    );
    assert_eq!(
        cli.subscribe_parse(SubscribeArgs { port: None, keep_alive: None, ..broken() }),
        Err(CliError::ProtocolVersion)
    );
    assert_eq!(
        cli.subscribe_parse(SubscribeArgs {
            port: None,
            keep_alive: None,
            version: None,
            ..broken()
        }),
        Err(CliError::WillIncomplete)
    );
    assert_eq!(
        cli.subscribe_parse(SubscribeArgs {
            port: None,
            keep_alive: None,
            version: None,
            will_topic: None,
            ..broken()
        }),
        Err(CliError::TlsVersion)
    );
    assert_eq!(
        cli.subscribe_parse(SubscribeArgs {
            port: None,
            keep_alive: None,
            version: None,
            will_topic: None,
            tls: no_tls(),
            ..broken()
        }),
        Err(CliError::QosUnsupported)
    );
}

#[test]
fn errors_have_messages_and_exit_codes() {
    assert_eq!(CliError::Help.exit_code(), 0);
    assert_eq!(CliError::TopicRequired.exit_code(), 64);
    assert_eq!(CliError::Options.exit_code(), 64);
    assert_eq!(CliError::TopicRequired.message(), "Please set the topic name");
    assert_eq!(
        CliError::MessageAndFile.message(),
        "Shouldn't set both message and file together"
    );
    assert_eq!(CliError::QosFormat.message(), "qos format error");
    assert_eq!(CliError::QosUnsupported.message(), "unsupported qos value");
    assert_eq!(CliError::PortFormat.message(), "port format error");
    assert_eq!(CliError::KeepAliveFormat.message(), "keep alive format error");
    assert_eq!(CliError::ProtocolVersion.message(), "unsupported protocol version");
    assert_eq!(CliError::TlsVersion.message(), "unsupported TLS version");
    assert_eq!(CliError::WillIncomplete.message(), "both will-topic and will-message required");
}

#[test]
fn local_storage_keeps_messages_by_packet_identifier() {
    let message = |pid: u16| Message {
        topic: TopicPath::from_str("a").unwrap(),
        qos: QoS::ExactlyOnce,
        retain: false,
        pid: Some(PacketIdentifier(pid)),
        payload: Arc::new(vec![pid as u8]),
    };
    let mut store = LocalStorage::new();
    store.put(message(1)).unwrap();
    store.put(message(2)).unwrap();
    assert_eq!(*store.get(PacketIdentifier(2)).unwrap().payload, vec![2]);
    store.delete(PacketIdentifier(2)).unwrap();
    assert_eq!(store.get(PacketIdentifier(2)).unwrap_err(), StorageError::NotFound(PacketIdentifier(2)));
    assert_eq!(store.get(PacketIdentifier(1)).unwrap().pid, Some(PacketIdentifier(1)));
}
