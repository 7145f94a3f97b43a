use std::sync::Arc;
use vstd::prelude::*;
use super::{
    clone_opt_string, opt_string_view, ConnectReturnCode, LastWill, LastWillView,
    PacketIdentifier, Protocol, QoS,
};

verus! {

/// CONNECT: the first packet of a connection.
#[derive(Debug, PartialEq)]
pub struct Connect {
    pub protocol: Protocol,
    pub keep_alive: u16,
    pub client_id: String,
    pub clean_session: bool,
    pub last_will: Option<LastWill>,
    pub username: Option<String>,
    pub password: Option<String>,
}

pub ghost struct ConnectView {
    pub protocol: Protocol,
    pub keep_alive: u16,
    pub client_id: Seq<char>,
    pub clean_session: bool,
    pub last_will: Option<LastWillView>,
    pub username: Option<Seq<char>>,
    pub password: Option<Seq<char>>,
}

/// The view of an optional will.
pub open spec fn opt_will_view(w: Option<LastWill>) -> Option<LastWillView> {
    match w {
        Some(w) => Some(w@),
        None => None,
    }
}

/// A copy of an optional will.
pub fn clone_opt_will(w: &Option<LastWill>) -> (copy: Option<LastWill>)
    ensures
        opt_will_view(copy) == opt_will_view(*w),
{
    match w {
        Some(w) => Some(w.clone()),
        None => None,
    }
}

impl View for Connect {
    type V = ConnectView;

    open spec fn view(&self) -> ConnectView {
        ConnectView {
            protocol: self.protocol,
            keep_alive: self.keep_alive,
            client_id: self.client_id@,
            clean_session: self.clean_session,
            last_will: opt_will_view(self.last_will),
            username: opt_string_view(self.username),
            password: opt_string_view(self.password),
        }
    }
}

impl Clone for Connect {
    fn clone(&self) -> (copy: Connect)
        ensures
            copy@ == self@,
    {
        Connect {
            protocol: self.protocol,
            keep_alive: self.keep_alive,
            client_id: self.client_id.clone(),
            clean_session: self.clean_session,
            last_will: clone_opt_will(&self.last_will),
            username: clone_opt_string(&self.username),
            password: clone_opt_string(&self.password),
        }
    }
}

/// CONNACK: the answer to a CONNECT.
#[derive(Debug, Clone, Copy, PartialEq, Eq, Structural)]
pub struct Connack {
    pub session_present: bool,
    pub code: ConnectReturnCode,
}

impl View for Connack {
    type V = Connack;

    open spec fn view(&self) -> Connack {
        *self
    }
}

/// PUBLISH: one application message.
#[derive(Debug, PartialEq)]
pub struct Publish {
    pub dup: bool,
    pub qos: QoS,
    pub retain: bool,
    pub topic_name: String,
    pub pid: Option<PacketIdentifier>,
    pub payload: Arc<Vec<u8>>,
}

pub ghost struct PublishView {
    pub dup: bool,
    pub qos: QoS,
    pub retain: bool,
    pub topic_name: Seq<char>,
    pub pid: Option<PacketIdentifier>,
    pub payload: Seq<u8>,
}

impl View for Publish {
    type V = PublishView;

    open spec fn view(&self) -> PublishView {
        PublishView {
            dup: self.dup,
            qos: self.qos,
            retain: self.retain,
            topic_name: self.topic_name@,
            pid: self.pid,
            payload: self.payload@,
        }
    }
}

impl Clone for Publish {
    fn clone(&self) -> (copy: Publish)
        ensures
            copy@ == self@,
    {
        Publish {
            dup: self.dup,
            qos: self.qos,
            retain: self.retain,
            topic_name: self.topic_name.clone(),
            pid: self.pid,
            payload: self.payload.clone(),
        }
    }
}

/// One topic filter of a SUBSCRIBE, with the tier asked for.
#[derive(Debug, PartialEq)]
pub struct SubscribeTopic {
    pub topic_path: String,
    pub qos: QoS,
}

pub ghost struct SubscribeTopicView {
    pub topic_path: Seq<char>,
    pub qos: QoS,
}

impl View for SubscribeTopic {
    type V = SubscribeTopicView;

    open spec fn view(&self) -> SubscribeTopicView {
        SubscribeTopicView { topic_path: self.topic_path@, qos: self.qos }
    }
}

impl Clone for SubscribeTopic {
    fn clone(&self) -> (copy: SubscribeTopic)
        ensures
            copy@ == self@,
    {
        SubscribeTopic { topic_path: self.topic_path.clone(), qos: self.qos }
    }
}

/// The views of a sequence of subscribe topics.
pub open spec fn topics_view(topics: Seq<SubscribeTopic>) -> Seq<SubscribeTopicView> {
    Seq::new(topics.len(), |i: int| topics[i]@)
}

/// The views of a sequence of strings.
pub open spec fn strings_view(strings: Seq<String>) -> Seq<Seq<char>> {
    Seq::new(strings.len(), |i: int| strings[i]@)
}

/// A copy of a list of subscribe topics.
pub fn clone_topics(topics: &Vec<SubscribeTopic>) -> (copy: Vec<SubscribeTopic>)
    ensures
        topics_view(copy@) == topics_view(topics@),
{
    let mut copy: Vec<SubscribeTopic> = Vec::new();
    let mut i: usize = 0;
    while i < topics.len()
        invariant
            i <= topics@.len(),
            copy@.len() == i,
            forall|j: int| 0 <= j < i ==> copy@[j]@ == topics@[j]@,
        decreases topics@.len() - i,
    {
        copy.push(topics[i].clone());
        i += 1;
    }
    assert(topics_view(copy@) =~= topics_view(topics@));
    copy
}

/// A copy of a list of strings.
pub fn clone_strings(strings: &Vec<String>) -> (copy: Vec<String>)
    ensures
        strings_view(copy@) == strings_view(strings@),
{
    let mut copy: Vec<String> = Vec::new();
    let mut i: usize = 0;
    while i < strings.len()
        invariant
            i <= strings@.len(),
            copy@.len() == i,
            forall|j: int| 0 <= j < i ==> copy@[j]@ == strings@[j]@,
        decreases strings@.len() - i,
    {
        copy.push(strings[i].clone());
        i += 1;
    }
    assert(strings_view(copy@) =~= strings_view(strings@));
    copy
}

/// SUBSCRIBE: a request for the messages of some topic filters.
#[derive(Debug, PartialEq)]
pub struct Subscribe {
    pub pid: PacketIdentifier,
    pub topics: Vec<SubscribeTopic>,
}

pub ghost struct SubscribeView {
    pub pid: PacketIdentifier,
    pub topics: Seq<SubscribeTopicView>,
}

impl View for Subscribe {
    type V = SubscribeView;

    open spec fn view(&self) -> SubscribeView {
        SubscribeView { pid: self.pid, topics: topics_view(self.topics@) }
    }
}

impl Clone for Subscribe {
    fn clone(&self) -> (copy: Subscribe)
        ensures
            copy@ == self@,
    {
        Subscribe { pid: self.pid, topics: clone_topics(&self.topics) }
    }
}

/// The answer to one topic filter of a SUBSCRIBE.
#[derive(Debug, Clone, Copy, PartialEq, Eq, Structural)]
pub enum SubscribeReturnCodes {
    Success(QoS),
    Failure,
}

/// SUBACK: the answers to a SUBSCRIBE, one for each topic filter.
#[derive(Debug, PartialEq)]
pub struct Suback {
    pub pid: PacketIdentifier,
    pub return_codes: Vec<SubscribeReturnCodes>,
}

pub ghost struct SubackView {
    pub pid: PacketIdentifier,
    pub return_codes: Seq<SubscribeReturnCodes>,
}

impl View for Suback {
    type V = SubackView;

    open spec fn view(&self) -> SubackView {
        SubackView { pid: self.pid, return_codes: self.return_codes@ }
    }
}

impl Clone for Suback {
    fn clone(&self) -> (copy: Suback)
        ensures
            copy@ == self@,
    {
        let mut codes: Vec<SubscribeReturnCodes> = Vec::new();
        let mut i: usize = 0;
        while i < self.return_codes.len()
            invariant
                i <= self.return_codes@.len(),
                codes@ == self.return_codes@.take(i as int),
            decreases self.return_codes@.len() - i,
        {
            codes.push(self.return_codes[i]);
            assert(self.return_codes@.take(i + 1) =~= self.return_codes@.take(i as int).push(
                self.return_codes@[i as int],
            ));
            i += 1;
        }
        assert(self.return_codes@.take(i as int) =~= self.return_codes@);
        Suback { pid: self.pid, return_codes: codes }
    }
}

/// UNSUBSCRIBE: the topic filters to give up.
#[derive(Debug, PartialEq)]
pub struct Unsubscribe {
    pub pid: PacketIdentifier,
    pub topics: Vec<String>,
}

pub ghost struct UnsubscribeView {
    pub pid: PacketIdentifier,
    pub topics: Seq<Seq<char>>,
}

impl View for Unsubscribe {
    type V = UnsubscribeView;

    open spec fn view(&self) -> UnsubscribeView {
        UnsubscribeView { pid: self.pid, topics: strings_view(self.topics@) }
    }
}

impl Clone for Unsubscribe {
    fn clone(&self) -> (copy: Unsubscribe)
        ensures
            copy@ == self@,
    {
        Unsubscribe { pid: self.pid, topics: clone_strings(&self.topics) }
    }
}

/// A control packet.
#[derive(Debug, PartialEq)]
pub enum Packet {
    Connect(Connect),
    Connack(Connack),
    Publish(Publish),
    Puback(PacketIdentifier),
    Pubrec(PacketIdentifier),
    Pubrel(PacketIdentifier),
    Pubcomp(PacketIdentifier),
    Subscribe(Subscribe),
    Suback(Suback),
    Unsubscribe(Unsubscribe),
    Unsuback(PacketIdentifier),
    Pingreq,
    Pingresp,
    Disconnect,
}

pub ghost enum PacketView {
    Connect(ConnectView),
    Connack(Connack),
    Publish(PublishView),
    Puback(PacketIdentifier),
    Pubrec(PacketIdentifier),
    Pubrel(PacketIdentifier),
    Pubcomp(PacketIdentifier),
    Subscribe(SubscribeView),
    Suback(SubackView),
    Unsubscribe(UnsubscribeView),
    Unsuback(PacketIdentifier),
    Pingreq,
    Pingresp,
    Disconnect,
}

impl View for Packet {
    type V = PacketView;

    open spec fn view(&self) -> PacketView {
        match self {
            Packet::Connect(c) => PacketView::Connect(c@),
            Packet::Connack(c) => PacketView::Connack(*c),
            Packet::Publish(p) => PacketView::Publish(p@),
            Packet::Puback(pid) => PacketView::Puback(*pid),
            Packet::Pubrec(pid) => PacketView::Pubrec(*pid),
            Packet::Pubrel(pid) => PacketView::Pubrel(*pid),
            Packet::Pubcomp(pid) => PacketView::Pubcomp(*pid),
            Packet::Subscribe(s) => PacketView::Subscribe(s@),
            Packet::Suback(s) => PacketView::Suback(s@),
            Packet::Unsubscribe(u) => PacketView::Unsubscribe(u@),
            Packet::Unsuback(pid) => PacketView::Unsuback(*pid),
            Packet::Pingreq => PacketView::Pingreq,
            Packet::Pingresp => PacketView::Pingresp,
            Packet::Disconnect => PacketView::Disconnect,
        }
    }
}

impl Clone for Packet {
    fn clone(&self) -> (copy: Packet)
        ensures
            copy@ == self@,
    {
        match self {
            Packet::Connect(c) => Packet::Connect(c.clone()),
            Packet::Connack(c) => Packet::Connack(*c),
            Packet::Publish(p) => Packet::Publish(p.clone()),
            Packet::Puback(pid) => Packet::Puback(*pid),
            Packet::Pubrec(pid) => Packet::Pubrec(*pid),
            Packet::Pubrel(pid) => Packet::Pubrel(*pid),
            Packet::Pubcomp(pid) => Packet::Pubcomp(*pid),
            Packet::Subscribe(s) => Packet::Subscribe(s.clone()),
            Packet::Suback(s) => Packet::Suback(s.clone()),
            Packet::Unsubscribe(u) => Packet::Unsubscribe(u.clone()),
            Packet::Unsuback(pid) => Packet::Unsuback(*pid),
            Packet::Pingreq => Packet::Pingreq,
            Packet::Pingresp => Packet::Pingresp,
            Packet::Disconnect => Packet::Disconnect,
        }
    }
}

} // verus!
