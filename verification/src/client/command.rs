//! The two commands of the client, and the store they use.
use std::collections::BTreeMap;
use vstd::prelude::*;
use crate::mqtt3::mqtt::{topics_view, SubscribeTopic, SubscribeTopicView};
use crate::mqtt3::msg::{Message, MessageView};
use crate::mqtt3::{opt_string_view, LastWill, PacketIdentifier, Protocol, QoS};
use crate::mqttc::store::{Error, Result, Store};

verus! {

/// The store of the command line client: in memory.
pub struct LocalStorage(pub BTreeMap<u16, Message>);

impl LocalStorage {
    /// The views of the messages that are kept.
    pub open spec fn messages(&self) -> Map<u16, MessageView> {
        Map::new(|k: u16| self.0@.contains_key(k), |k: u16| self.0@[k]@)
    }

    /// An empty store.
    pub fn new() -> (store: Box<LocalStorage>)
        ensures
            store.messages() == Map::<u16, MessageView>::empty(),
    {
        let store = LocalStorage(BTreeMap::new());
        assert(store.messages() =~= Map::<u16, MessageView>::empty());
        Box::new(store)
    }
}

impl Store for LocalStorage {
    open spec fn contents(&self) -> Map<u16, MessageView> {
        self.messages()
    }

    open spec fn reliable(&self) -> bool {
        true
    }

    fn put(&mut self, message: Message) -> (r: Result<()>) {
        let ghost view = message@;
        let pid = match message.pid {
            Some(pid) => pid,
            None => vstd::pervasive::unreached(),
        };
        self.0.insert(pid.0, message);
        assert(self.messages() =~= old(self).messages().insert(pid.0, view));
        Ok(())
    }

    fn get(&mut self, pid: PacketIdentifier) -> (r: Result<Message>) {
        match self.0.get(&pid.0) {
            Some(message) => Ok(message.clone()),
            None => Err(Error::NotFound(pid)),
        }
    }

    fn delete(&mut self, pid: PacketIdentifier) -> (r: Result<()>) {
        self.0.remove(&pid.0);
        assert(self.messages() =~= old(self).messages().remove(pid.0));
        Ok(())
    }
}

/// The version of TLS that a connection asks for.
#[derive(Debug, Clone, Copy, PartialEq, Eq, Structural)]
pub enum TlsVersion {
    Tlsv1,
    Tlsv1_1,
    Tlsv1_2,
}

/// How a connection is secured: the version, the files, and whether
/// the peer is verified.
#[derive(Debug, PartialEq)]
pub struct Tls {
    pub version: TlsVersion,
    pub cafile: Option<String>,
    pub key: Option<String>,
    pub cert: Option<String>,
    pub verify: bool,
}

pub ghost struct TlsView {
    pub version: TlsVersion,
    pub cafile: Option<Seq<char>>,
    pub key: Option<Seq<char>>,
    pub cert: Option<Seq<char>>,
    pub verify: bool,
}

impl View for Tls {
    type V = TlsView;

    open spec fn view(&self) -> TlsView {
        TlsView {
            version: self.version,
            cafile: opt_string_view(self.cafile),
            key: opt_string_view(self.key),
            cert: opt_string_view(self.cert),
            verify: self.verify,
        }
    }
}

/// The view of optional TLS settings.
pub open spec fn opt_tls_view(tls: Option<Tls>) -> Option<TlsView> {
    match tls {
        Some(tls) => Some(tls@),
        None => None,
    }
}

/// The command that publishes one message.
#[derive(Debug, PartialEq)]
pub struct PublishCommand {
    pub topic: String,
    pub message: Option<String>,
    pub file: Option<String>,
    pub qos: QoS,
    pub retain: bool,
    pub address: String,
    pub port: u16,
    pub keep_alive: u16,
    pub debug: bool,
    pub protocol: Protocol,
    pub client_id: Option<String>,
    pub username: Option<String>,
    pub password: Option<String>,
    pub tls: Option<Tls>,
}

pub ghost struct PublishCommandView {
    pub topic: Seq<char>,
    pub message: Option<Seq<char>>,
    pub file: Option<Seq<char>>,
    pub qos: QoS,
    pub retain: bool,
    pub address: Seq<char>,
    pub port: u16,
    pub keep_alive: u16,
    pub debug: bool,
    pub protocol: Protocol,
    pub client_id: Option<Seq<char>>,
    pub username: Option<Seq<char>>,
    pub password: Option<Seq<char>>,
    pub tls: Option<TlsView>,
}

impl View for PublishCommand {
    type V = PublishCommandView;

    open spec fn view(&self) -> PublishCommandView {
        PublishCommandView {
            topic: self.topic@,
            message: opt_string_view(self.message),
            file: opt_string_view(self.file),
            qos: self.qos,
            retain: self.retain,
            address: self.address@,
            port: self.port,
            keep_alive: self.keep_alive,
            debug: self.debug,
            protocol: self.protocol,
            client_id: opt_string_view(self.client_id),
            username: opt_string_view(self.username),
            password: opt_string_view(self.password),
            tls: opt_tls_view(self.tls),
        }
    }
}

impl PublishCommandView {
    /// What a publish does where nothing is asked for: tier 1 to
    /// localhost:1883, MQTT 3.1.1, a keep-alive of 30 seconds.
    pub open spec fn default() -> PublishCommandView {
        PublishCommandView {
            topic: "nodefault"@,
            message: None,
            file: None,
            qos: QoS::AtLeastOnce,
            retain: false,
            address: "localhost"@,
            port: 1883,
            keep_alive: 30,
            debug: true,
            protocol: Protocol::MQTT(4),
            client_id: None,
            username: None,
            password: None,
            tls: None,
        }
    }
}

impl Default for PublishCommand {
    fn default() -> (command: PublishCommand)
        ensures
            command@ == PublishCommandView::default(),
    {
        PublishCommand {
            topic: "nodefault".to_owned(),
            message: None,
            file: None,
            qos: QoS::AtLeastOnce,
            retain: false,
            address: "localhost".to_owned(),
            port: 1883,
            keep_alive: 30,
            debug: true,
            protocol: Protocol::MQTT(4),
            client_id: None,
            username: None,
            password: None,
            tls: None,
        }
    }
}

/// The command that subscribes and prints what comes.
#[derive(Debug, PartialEq)]
pub struct SubscribeCommand {
    pub topics: Vec<SubscribeTopic>,
    pub address: String,
    pub port: u16,
    pub clean_session: bool,
    pub last_will: Option<LastWill>,
    pub keep_alive: u16,
    pub log_file: Option<String>,
    pub debug: bool,
    pub reconnect: bool,
    pub protocol: Protocol,
    pub silence: bool,
    pub client_id: Option<String>,
    pub username: Option<String>,
    pub password: Option<String>,
    pub limit: Option<u32>,
    pub retain: bool,
    pub topic_filters: Vec<String>,
    pub tls: Option<Tls>,
}

pub ghost struct SubscribeCommandView {
    pub topics: Seq<SubscribeTopicView>,
    pub address: Seq<char>,
    pub port: u16,
    pub clean_session: bool,
    pub last_will: Option<crate::mqtt3::LastWillView>,
    pub keep_alive: u16,
    pub log_file: Option<Seq<char>>,
    pub debug: bool,
    pub reconnect: bool,
    pub protocol: Protocol,
    pub silence: bool,
    pub client_id: Option<Seq<char>>,
    pub username: Option<Seq<char>>,
    pub password: Option<Seq<char>>,
    pub limit: Option<u32>,
    pub retain: bool,
    pub topic_filters: Seq<Seq<char>>,
    pub tls: Option<TlsView>,
}

impl View for SubscribeCommand {
    type V = SubscribeCommandView;

    open spec fn view(&self) -> SubscribeCommandView {
        SubscribeCommandView {
            topics: topics_view(self.topics@),
            address: self.address@,
            port: self.port,
            clean_session: self.clean_session,
            last_will: crate::mqtt3::mqtt::opt_will_view(self.last_will),
            keep_alive: self.keep_alive,
            log_file: opt_string_view(self.log_file),
            debug: self.debug,
            reconnect: self.reconnect,
            protocol: self.protocol,
            silence: self.silence,
            client_id: opt_string_view(self.client_id),
            username: opt_string_view(self.username),
            password: opt_string_view(self.password),
            limit: self.limit,
            retain: self.retain,
            topic_filters: crate::mqtt3::mqtt::strings_view(self.topic_filters@),
            tls: opt_tls_view(self.tls),
        }
    }
}

impl SubscribeCommandView {
    /// What a subscribe does where nothing is asked for: every topic
    /// at tier 2, from localhost:1883, with a clean session.
    pub open spec fn default() -> SubscribeCommandView {
        SubscribeCommandView {
            topics: seq![SubscribeTopicView { topic_path: "#"@, qos: QoS::ExactlyOnce }],
            address: "localhost"@,
            port: 1883,
            clean_session: true,
            last_will: None,
            keep_alive: 30,
            log_file: None,
            debug: true,
            reconnect: false,
            protocol: Protocol::MQTT(4),
            silence: false,
            client_id: None,
            username: None,
            password: None,
            limit: None,
            retain: false,
            topic_filters: Seq::empty(),
            tls: None,
        }
    }
}

impl Default for SubscribeCommand {
    fn default() -> (command: SubscribeCommand)
        ensures
            command@ == SubscribeCommandView::default(),
    {
        let mut topics: Vec<SubscribeTopic> = Vec::new();
        topics.push(SubscribeTopic { topic_path: "#".to_owned(), qos: QoS::ExactlyOnce });
        let command = SubscribeCommand {
            topics: topics,
            address: "localhost".to_owned(),
            port: 1883,
            clean_session: true,
            last_will: None,
            keep_alive: 30,
            log_file: None,
            debug: true,
            reconnect: false,
            protocol: Protocol::MQTT(4),
            silence: false,
            client_id: None,
            username: None,
            password: None,
            limit: None,
            retain: false,
            topic_filters: Vec::new(),
            tls: None,
        };
        assert(command@.topics =~= SubscribeCommandView::default().topics);
        assert(command@.topic_filters =~= SubscribeCommandView::default().topic_filters);
        command
    }
}

} // verus!
