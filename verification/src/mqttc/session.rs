//! The session, as mathematics: what it holds, and what each event
//! makes of it.
use vstd::prelude::*;
use crate::mqtt3::error::Error as MqttError;
use crate::mqtt3::mqtt::{
    Connack, ConnectView, PacketView, SubackView, SubscribeReturnCodes, SubscribeTopicView,
    SubscribeView, UnsubscribeView,
};
use crate::mqtt3::msg::MessageView;
use crate::mqtt3::topic::{parse_path, TopicPathView};
use crate::mqtt3::wire::{max_remaining_length, packet_body, packet_bytes};
use crate::mqtt3::{ConnectReturnCode, PacketIdentifier, QoS};
use crate::netopt::error::ErrorKind;
use super::error::Error;
use super::pubopt::PubOpt;
use super::sub::SubscriptionView;
use super::{ClientState, ReconnectMethod};

verus! {

/// The views of a sequence of values.
pub open spec fn views<T: View>(s: Seq<T>) -> Seq<T::V> {
    Seq::new(s.len(), |i: int| s[i]@)
}

/// What handling an event gives: a message for the application, or
/// none, or an error.
pub type Delivery = Result<Option<MessageView>, Error>;

/// What a read from the transport gave.
pub ghost enum IncomingView {
    Packet(PacketView),
    Mqtt(MqttError),
    Io(ErrorKind),
}

/// The subscriptions with `sub` in place of the first one for the same
/// filter, or behind them if there is none.
pub open spec fn subs_insert(subs: Seq<SubscriptionView>, sub: SubscriptionView) -> Seq<
    SubscriptionView,
>
    decreases subs.len(),
{
    if subs.len() == 0 {
        seq![sub]
    } else if subs[0].topic_path.path == sub.topic_path.path {
        seq![sub] + subs.drop_first()
    } else {
        seq![subs[0]] + subs_insert(subs.drop_first(), sub)
    }
}

/// The subscriptions with each of `items` inserted, in order.
pub open spec fn subs_insert_all(subs: Seq<SubscriptionView>, items: Seq<SubscriptionView>) -> Seq<
    SubscriptionView,
>
    decreases items.len(),
{
    if items.len() == 0 {
        subs
    } else {
        subs_insert(subs_insert_all(subs, items.drop_last()), items.last())
    }
}

/// The subscriptions without those for the filter `path`.
pub open spec fn subs_remove(subs: Seq<SubscriptionView>, path: Seq<char>) -> Seq<SubscriptionView>
    decreases subs.len(),
{
    if subs.len() == 0 {
        subs
    } else if subs.last().topic_path.path == path {
        subs_remove(subs.drop_last(), path)
    } else {
        subs_remove(subs.drop_last(), path).push(subs.last())
    }
}

/// The subscriptions without those for any filter of `paths`.
pub open spec fn subs_remove_all(subs: Seq<SubscriptionView>, paths: Seq<Seq<char>>) -> Seq<
    SubscriptionView,
>
    decreases paths.len(),
{
    if paths.len() == 0 {
        subs
    } else {
        subs_remove(subs_remove_all(subs, paths.drop_last()), paths.last())
    }
}

/// No two subscriptions are for the same filter.
pub open spec fn distinct_filters(subs: Seq<SubscriptionView>) -> bool {
    forall|i: int, j: int|
        0 <= i < j < subs.len() ==> (#[trigger] subs[i]).topic_path.path != (
        #[trigger] subs[j]).topic_path.path
}

/// Whether a subscription for the filter `path` is among `subs`.
pub open spec fn has_filter(subs: Seq<SubscriptionView>, path: Seq<char>) -> bool {
    exists|i: int| 0 <= i < subs.len() && (#[trigger] subs[i]).topic_path.path == path
}

/// The subscriptions that a SUBACK grants: one for each filter whose
/// return code is a success, with the granted tier. A granted filter
/// that is no topic path makes the whole an error.
pub open spec fn granted(
    pid: PacketIdentifier,
    topics: Seq<SubscribeTopicView>,
    codes: Seq<SubscribeReturnCodes>,
) -> Result<Seq<SubscriptionView>, MqttError>
    recommends
        topics.len() == codes.len(),
    decreases topics.len(),
{
    if topics.len() == 0 || codes.len() == 0 {
        Ok(Seq::empty())
    } else {
        match granted(pid, topics.drop_last(), codes.drop_last()) {
            Err(e) => Err(e),
            Ok(before) => match codes.last() {
                SubscribeReturnCodes::Failure => Ok(before),
                SubscribeReturnCodes::Success(qos) => match parse_path(topics.last().topic_path) {
                    Err(e) => Err(e),
                    Ok(topic_path) => Ok(
                        before.push(
                            SubscriptionView { pid: pid, topic_path: topic_path, qos: qos },
                        ),
                    ),
                },
            },
        }
    }
}

/// The filters and granted tiers of the subscriptions, as a SUBSCRIBE
/// asks for them.
pub open spec fn subscribe_topics_of(subs: Seq<SubscriptionView>) -> Seq<SubscribeTopicView> {
    Seq::new(subs.len(), |i: int| subs[i].to_subscribe_topic())
}

/// The first of a queue is gone, if it had one.
pub open spec fn popped<T>(queue: Seq<T>) -> Seq<T> {
    if queue.len() > 0 {
        queue.drop_first()
    } else {
        queue
    }
}

/// The store without what it kept under `pid`, if there is a store.
pub open spec fn store_without(store: Option<Map<u16, MessageView>>, pid: PacketIdentifier)
    -> Option<Map<u16, MessageView>> {
    match store {
        Some(kept) => Some(kept.remove(pid.0)),
        None => None,
    }
}

/// What a session holds.
pub ghost struct ClientView {
    pub state: ClientState,
    pub session_present: bool,
    /// When the last packet was handed to the transport.
    pub last_flush: u64,
    pub last_pid: PacketIdentifier,
    /// A PINGREQ was sent and no PINGRESP has come.
    pub await_ping: bool,
    /// The handshake that is under way follows a lost connection.
    pub resubscribe: bool,
    pub incomming_pub: Seq<MessageView>,
    pub incomming_rec: Seq<MessageView>,
    pub incomming_rel: Seq<PacketIdentifier>,
    pub outgoing_ack: Seq<MessageView>,
    pub outgoing_rec: Seq<MessageView>,
    pub outgoing_comp: Seq<PacketIdentifier>,
    pub await_suback: Seq<SubscribeView>,
    pub await_unsuback: Seq<UnsubscribeView>,
    pub subscriptions: Seq<SubscriptionView>,
    pub incomming_store: Option<Map<u16, MessageView>>,
    pub outgoing_store: Option<Map<u16, MessageView>>,
    /// The incoming store may fail.
    pub incomming_fails: bool,
    /// The outgoing store may fail.
    pub outgoing_fails: bool,
    /// The bytes that the session wrote and the transport has not
    /// taken.
    pub written: Seq<u8>,
    /// In seconds.
    pub keep_alive: Option<u16>,
    pub reconnect: ReconnectMethod,
    /// The CONNECT that opens a connection.
    pub connect: ConnectView,
}

/// Every message of a queue is of the tier `qos` and has a packet
/// identifier.
pub open spec fn all_in_flight(queue: Seq<MessageView>, qos: QoS) -> bool {
    forall|i: int|
        0 <= i < queue.len() ==> (#[trigger] queue[i]).qos == qos && queue[i].pid is Some
}

/// Every subscription holds the topic path that its filter is.
pub open spec fn all_parsed(subs: Seq<SubscriptionView>) -> bool {
    forall|i: int| 0 <= i < subs.len() ==> (#[trigger] subs[i]).topic_path.wf()
}

/// What holds of the tier-2 messages that came in: no packet
/// identifier waits twice, be it for its PUBREL or to be completed, and
/// the store keeps under each what came under it.
pub open spec fn received_once(
    rec: Seq<MessageView>,
    rel: Seq<PacketIdentifier>,
    store: Option<Map<u16, MessageView>>,
) -> bool {
    &&& forall|i: int, j: int|
        0 <= i < j < rec.len() ==> (#[trigger] rec[i]).pid != (#[trigger] rec[j]).pid
    &&& forall|i: int, j: int| 0 <= i < j < rel.len() ==> #[trigger] rel[i] != #[trigger] rel[j]
    &&& forall|i: int, j: int|
        0 <= i < rec.len() && 0 <= j < rel.len() ==> (#[trigger] rec[i]).pid != Some(
            #[trigger] rel[j],
        )
    &&& rec.len() > 0 || rel.len() > 0 ==> store is Some
    &&& forall|i: int|
        0 <= i < rec.len() ==> (#[trigger] rec[i]).pid is Some && store->Some_0.contains_key(
            rec[i].pid->Some_0.0,
        ) && store->Some_0[rec[i].pid->Some_0.0] == rec[i]
    &&& forall|j: int| 0 <= j < rel.len() ==> store->Some_0.contains_key((#[trigger] rel[j]).0)
}

impl ClientView {
    /// What holds of a session at all times: the messages that wait
    /// for a PUBACK are of tier 1, those that wait for a PUBREC or a
    /// PUBREL are of tier 2, and all of them have a packet identifier;
    /// no packet identifier of a tier-2 message that came in waits
    /// twice, and the incoming store keeps the message of each; no two
    /// subscriptions are for the same filter, and each holds the topic
    /// path that its filter is.
    pub open spec fn inv(self) -> bool {
        &&& all_in_flight(self.outgoing_ack, QoS::AtLeastOnce)
        &&& all_in_flight(self.outgoing_rec, QoS::ExactlyOnce)
        &&& all_in_flight(self.incomming_pub, QoS::AtLeastOnce)
        &&& all_in_flight(self.incomming_rec, QoS::ExactlyOnce)
        &&& received_once(self.incomming_rec, self.incomming_rel, self.incomming_store)
        &&& distinct_filters(self.subscriptions)
        &&& all_parsed(self.subscriptions)
    }

    /// The session after the transport is given up: nothing waits for
    /// a SUBACK, an UNSUBACK or a PINGRESP. The queues of messages, the
    /// stores and the subscriptions stay.
    pub open spec fn unbind(self) -> ClientView {
        ClientView {
            await_unsuback: Seq::empty(),
            await_suback: Seq::empty(),
            await_ping: false,
            state: ClientState::Disconnected,
            ..self
        }
    }

    /// The session after a packet was written.
    pub open spec fn write(self, p: PacketView) -> ClientView {
        ClientView { written: self.written + packet_bytes(p), ..self }
    }

    /// Connected, with nothing outstanding.
    pub open spec fn normalized(self) -> bool {
        &&& self.state == ClientState::Connected
        &&& !self.await_ping
        &&& self.outgoing_ack.len() == 0
        &&& self.outgoing_rec.len() == 0
        &&& self.incomming_pub.len() == 0
        &&& self.incomming_rec.len() == 0
        &&& self.incomming_rel.len() == 0
        &&& self.await_suback.len() == 0
        &&& self.await_unsuback.len() == 0
    }

    /// The peer broke the protocol: the transport is given up.
    pub open spec fn fail(self, e: Error) -> (ClientView, Delivery) {
        (self.unbind(), Err(e))
    }

    /// The connection is lost: the transport is given up, and the
    /// caller is told to go on if the session is to reconnect.
    pub open spec fn lost(self) -> (ClientView, Delivery) {
        (
            self.unbind(),
            match self.reconnect {
                ReconnectMethod::ForeverDisconnect => Err(Error::Disconnected),
                ReconnectMethod::ReconnectAfter(_) => Ok(None),
            },
        )
    }

    /// A SUBSCRIBE for `topics` is sent under the next packet
    /// identifier and waits for its SUBACK; or nothing happens, where
    /// it is too long to be written.
    pub open spec fn subscribe(self, topics: Seq<SubscribeTopicView>) -> (
        ClientView,
        Result<(), Error>,
    ) {
        let subscribe = SubscribeView { pid: self.last_pid.spec_next(), topics: topics };
        if packet_body(PacketView::Subscribe(subscribe)).len() > max_remaining_length() {
            (self, Err(Error::Mqtt(MqttError::PayloadTooLong)))
        } else {
            (
                ClientView {
                    last_pid: subscribe.pid,
                    await_suback: self.await_suback.push(subscribe),
                    ..self.write(PacketView::Subscribe(subscribe))
                },
                Ok(()),
            )
        }
    }

    /// An UNSUBSCRIBE for `topics` is sent under the next packet
    /// identifier and waits for its UNSUBACK; or nothing happens,
    /// where it is too long to be written.
    pub open spec fn unsubscribe(self, topics: Seq<Seq<char>>) -> (ClientView, Result<(), Error>) {
        let unsubscribe = UnsubscribeView { pid: self.last_pid.spec_next(), topics: topics };
        if packet_body(PacketView::Unsubscribe(unsubscribe)).len() > max_remaining_length() {
            (self, Err(Error::Mqtt(MqttError::PayloadTooLong)))
        } else {
            (
                ClientView {
                    last_pid: unsubscribe.pid,
                    await_unsuback: self.await_unsuback.push(unsubscribe),
                    ..self.write(PacketView::Unsubscribe(unsubscribe))
                },
                Ok(()),
            )
        }
    }

    /// A SUBSCRIBE for every filter of the subscriptions is sent, with
    /// the granted tiers.
    pub open spec fn resubscribed(self) -> ClientView {
        ClientView {
            resubscribe: false,
            ..self.subscribe(subscribe_topics_of(self.subscriptions)).0
        }
    }

    /// Whether a message that comes in makes the session ask a store
    /// that may fail.
    pub open spec fn message_may_fail(self, m: MessageView) -> bool {
        &&& m.qos == QoS::ExactlyOnce
        &&& m.pid is Some
        &&& self.incomming_store is Some
        &&& self.incomming_fails
    }

    /// Whether a packet that comes in while connected makes the
    /// session ask a store that may fail.
    pub open spec fn connected_may_fail(self, p: PacketView) -> bool {
        match p {
            PacketView::Publish(publish) => match MessageView::from_pub(publish) {
                Ok(m) => self.message_may_fail(m),
                Err(_) => false,
            },
            PacketView::Puback(pid) => {
                &&& self.outgoing_ack.len() > 0
                &&& self.outgoing_ack[0].pid == Some(pid)
                &&& self.outgoing_ack[0].qos == QoS::AtLeastOnce
                &&& self.outgoing_store is Some
                &&& self.outgoing_fails
            },
            PacketView::Pubrec(pid) => {
                &&& self.outgoing_rec.len() > 0
                &&& self.outgoing_rec[0].pid == Some(pid)
                &&& self.outgoing_store is Some
                &&& self.outgoing_fails
            },
            PacketView::Pubrel(pid) => {
                &&& self.incomming_rec.len() > 0
                &&& self.incomming_rec[0].pid == Some(pid)
                &&& self.incomming_store is Some
                &&& self.incomming_fails
            },
            _ => false,
        }
    }

    /// Whether a packet that comes in makes the session ask a store
    /// that may fail.
    pub open spec fn packet_may_fail(self, p: PacketView) -> bool {
        self.state == ClientState::Connected && self.connected_may_fail(p)
    }

    /// Whether what a read gave makes the session ask a store that
    /// may fail.
    pub open spec fn accept_may_fail(self, incoming: IncomingView) -> bool {
        match incoming {
            IncomingView::Packet(p) => self.packet_may_fail(p),
            _ => false,
        }
    }

    /// Whether completing `pid` makes the session ask a store that may
    /// fail.
    pub open spec fn complete_may_fail(self, pid: PacketIdentifier) -> bool {
        &&& self.incomming_rel.len() > 0
        &&& self.incomming_rel.last() == pid
        &&& self.incomming_store is Some
        &&& self.incomming_fails
    }

    /// Whether a publish makes the session ask a store that may fail.
    pub open spec fn publish_may_fail(
        self,
        topic: Result<TopicPathView, MqttError>,
        pubopt: PubOpt,
    ) -> bool {
        &&& topic is Ok
        &&& pubopt.spec_qos() != QoS::AtMostOnce
        &&& self.outgoing_store is Some
        &&& self.outgoing_fails
    }

    /// A message came in.
    ///
    /// At tier 0 it is delivered. At tier 1 it is acknowledged and
    /// delivered. At tier 2 it is kept in the incoming store and
    /// received, and not delivered; one whose packet identifier the
    /// store holds already is only received again.
    pub open spec fn on_message(self, m: MessageView) -> (ClientView, Delivery) {
        match m.qos {
            QoS::AtMostOnce => (self, Ok(Some(m))),
            QoS::AtLeastOnce => match m.pid {
                None => self.fail(Error::ProtocolViolation),
                Some(pid) => (
                    ClientView {
                        incomming_pub: self.incomming_pub.push(m).drop_first(),
                        ..self.write(PacketView::Puback(pid))
                    },
                    Ok(Some(m)),
                ),
            },
            QoS::ExactlyOnce => match m.pid {
                None => self.fail(Error::ProtocolViolation),
                Some(pid) => match self.incomming_store {
                    None => (self, Err(Error::IncommingStorageAbsent)),
                    Some(kept) => if kept.contains_key(pid.0) {
                        (self.write(PacketView::Pubrec(pid)), Ok(None))
                    } else {
                        (
                            ClientView {
                                incomming_rec: self.incomming_rec.push(m),
                                incomming_store: Some(kept.insert(pid.0, m)),
                                ..self.write(PacketView::Pubrec(pid))
                            },
                            Ok(None),
                        )
                    },
                },
            },
        }
    }

    /// A packet came in during the handshake.
    pub open spec fn on_handshake(self, p: PacketView) -> (ClientView, Delivery) {
        match p {
            PacketView::Connack(connack) => if connack.code == ConnectReturnCode::Accepted {
                let connected = ClientView {
                    session_present: connack.session_present,
                    state: ClientState::Connected,
                    ..self
                };
                (
                    if self.resubscribe {
                        connected.resubscribed()
                    } else {
                        connected
                    },
                    Ok(None),
                )
            } else {
                self.fail(Error::ConnectionRefused(connack.code))
            },
            _ => self.fail(Error::HandshakeFailed),
        }
    }

    /// PUBACK: the first of `outgoing_ack` must be a message of tier 1
    /// with this packet identifier. It is acknowledged and leaves the
    /// queue and the outgoing store.
    pub open spec fn on_puback(self, pid: PacketIdentifier) -> (ClientView, Delivery) {
        if self.outgoing_ack.len() > 0 && self.outgoing_ack[0].pid == Some(pid)
            && self.outgoing_ack[0].qos == QoS::AtLeastOnce {
            (
                ClientView {
                    outgoing_ack: self.outgoing_ack.drop_first(),
                    outgoing_store: store_without(self.outgoing_store, pid),
                    ..self
                },
                Ok(None),
            )
        } else {
            (ClientView { outgoing_ack: popped(self.outgoing_ack), ..self }).fail(
                Error::UnhandledPuback(pid),
            )
        }
    }

    /// PUBREC: the first of `outgoing_rec` must have this packet
    /// identifier. It leaves the queue and the outgoing store, PUBREL
    /// is sent, and the packet identifier waits for its PUBCOMP.
    pub open spec fn on_pubrec(self, pid: PacketIdentifier) -> (ClientView, Delivery) {
        if self.outgoing_rec.len() > 0 && self.outgoing_rec[0].pid == Some(pid) {
            match self.outgoing_store {
                None => (self, Err(Error::OutgoingStorageAbsent)),
                Some(kept) => (
                    ClientView {
                        outgoing_rec: self.outgoing_rec.drop_first(),
                        outgoing_comp: self.outgoing_comp.push(pid),
                        outgoing_store: Some(kept.remove(pid.0)),
                        ..self.write(PacketView::Pubrel(pid))
                    },
                    Ok(None),
                ),
            }
        } else {
            (ClientView { outgoing_rec: popped(self.outgoing_rec), ..self }).fail(
                Error::UnhandledPubrec(pid),
            )
        }
    }

    /// PUBREL: the first of `incomming_rec` must have this packet
    /// identifier. It leaves the queue; the message that the incoming
    /// store keeps under it is delivered, and the packet identifier
    /// waits for the application to complete it. Where the store does
    /// not hold it, it counts as completed: PUBCOMP is sent and nothing
    /// is delivered.
    pub open spec fn on_pubrel(self, pid: PacketIdentifier) -> (ClientView, Delivery) {
        if self.incomming_rec.len() > 0 && self.incomming_rec[0].pid == Some(pid) {
            match self.incomming_store {
                None => (self, Err(Error::IncommingStorageAbsent)),
                Some(kept) => if kept.contains_key(pid.0) {
                    (
                        ClientView {
                            incomming_rec: self.incomming_rec.drop_first(),
                            incomming_rel: self.incomming_rel.push(pid),
                            ..self
                        },
                        Ok(Some(kept[pid.0])),
                    )
                } else {
                    (
                        ClientView {
                            incomming_rec: self.incomming_rec.drop_first(),
                            ..self.write(PacketView::Pubcomp(pid))
                        },
                        Ok(None),
                    )
                },
            }
        } else {
            (ClientView { incomming_rec: popped(self.incomming_rec), ..self }).fail(
                Error::UnhandledPubrel(pid),
            )
        }
    }

    /// PUBCOMP: the first of `outgoing_comp` must be this packet
    /// identifier, and leaves the queue.
    pub open spec fn on_pubcomp(self, pid: PacketIdentifier) -> (ClientView, Delivery) {
        if self.outgoing_comp.len() > 0 && self.outgoing_comp[0] == pid {
            (ClientView { outgoing_comp: self.outgoing_comp.drop_first(), ..self }, Ok(None))
        } else {
            (ClientView { outgoing_comp: popped(self.outgoing_comp), ..self }).fail(
                Error::UnhandledPubcomp(pid),
            )
        }
    }

    /// SUBACK: the first of `await_suback` must have this packet
    /// identifier and as many filters as there are return codes. It
    /// leaves the queue, and each filter that was granted is recorded.
    pub open spec fn on_suback(self, suback: SubackView) -> (ClientView, Delivery) {
        if self.await_suback.len() > 0 && self.await_suback[0].pid == suback.pid
            && self.await_suback[0].topics.len() == suback.return_codes.len() {
            let waiting = ClientView { await_suback: self.await_suback.drop_first(), ..self };
            match granted(suback.pid, self.await_suback[0].topics, suback.return_codes) {
                Err(e) => (waiting, Err(Error::Mqtt(e))),
                Ok(subs) => (
                    ClientView {
                        subscriptions: subs_insert_all(self.subscriptions, subs),
                        ..waiting
                    },
                    Ok(None),
                ),
            }
        } else {
            (ClientView { await_suback: popped(self.await_suback), ..self }).fail(
                Error::ProtocolViolation,
            )
        }
    }

    /// UNSUBACK: the first of `await_unsuback` must have this packet
    /// identifier. It leaves the queue, and its filters leave the
    /// subscriptions.
    pub open spec fn on_unsuback(self, pid: PacketIdentifier) -> (ClientView, Delivery) {
        if self.await_unsuback.len() > 0 && self.await_unsuback[0].pid == pid {
            (
                ClientView {
                    await_unsuback: self.await_unsuback.drop_first(),
                    subscriptions: subs_remove_all(
                        self.subscriptions,
                        self.await_unsuback[0].topics,
                    ),
                    ..self
                },
                Ok(None),
            )
        } else {
            (ClientView { await_unsuback: popped(self.await_unsuback), ..self }).fail(
                Error::ProtocolViolation,
            )
        }
    }

    /// A packet came in while connected.
    pub open spec fn on_connected(self, p: PacketView) -> (ClientView, Delivery) {
        match p {
            PacketView::Connack(_) => self.fail(Error::AlreadyConnected),
            PacketView::Publish(publish) => match MessageView::from_pub(publish) {
                Err(e) => (self, Err(Error::Mqtt(e))),
                Ok(m) => self.on_message(m),
            },
            PacketView::Puback(pid) => self.on_puback(pid),
            PacketView::Pubrec(pid) => self.on_pubrec(pid),
            PacketView::Pubrel(pid) => self.on_pubrel(pid),
            PacketView::Pubcomp(pid) => self.on_pubcomp(pid),
            PacketView::Suback(suback) => self.on_suback(suback),
            PacketView::Unsuback(pid) => self.on_unsuback(pid),
            PacketView::Pingresp => (ClientView { await_ping: false, ..self }, Ok(None)),
            _ => self.fail(Error::UnrecognizedPacket),
        }
    }

    /// A packet came in.
    pub open spec fn on_packet(self, p: PacketView) -> (ClientView, Delivery) {
        match self.state {
            ClientState::Handshake => self.on_handshake(p),
            ClientState::Connected => self.on_connected(p),
            ClientState::Disconnected => self.fail(Error::ConnectionAbort),
        }
    }

    /// A read from the transport gave `incoming`.
    ///
    /// Without a connection, whatever it gave, the connection is lost.
    /// With one: a packet is handled; the end of the data means that
    /// the connection is lost; another codec error gives the transport
    /// up; a read that ran into its deadline is a timeout; a transport
    /// error for a lost connection means that, and any other gives the
    /// transport up.
    pub open spec fn accept(self, incoming: IncomingView) -> (ClientView, Delivery) {
        if self.state == ClientState::Disconnected {
            self.lost()
        } else {
            match incoming {
                IncomingView::Packet(p) => self.on_packet(p),
                IncomingView::Mqtt(e) => if e == MqttError::UnexpectedEof {
                    self.lost()
                } else {
                    self.fail(Error::Mqtt(e))
                },
                IncomingView::Io(kind) => if kind.spec_is_timeout() {
                    (self, Err(Error::Timeout))
                } else if kind.spec_is_connection_lost() {
                    self.lost()
                } else {
                    self.fail(Error::Io(kind))
                },
            }
        }
    }

    /// A PINGREQ is sent and waits for its PINGRESP.
    pub open spec fn ping(self) -> ClientView {
        ClientView { await_ping: true, ..self.write(PacketView::Pingreq) }
    }

    /// What the wait for a message makes of a handled read: `Some` of
    /// what it returns, or `None` to read again.
    ///
    /// A message is returned, and so is an error. On a timeout while
    /// connected a PINGREQ is sent, or, where one is outstanding
    /// already, the transport is given up. Then, with nothing
    /// outstanding, the wait ends without a message.
    pub open spec fn after_accept(self, accepted: Delivery) -> (ClientView, Option<Delivery>) {
        match accepted {
            Ok(Some(m)) => (self, Some(accepted)),
            Ok(None) => (
                self,
                if self.normalized() {
                    Some(Ok(None))
                } else {
                    None
                },
            ),
            Err(Error::Timeout) => if self.state == ClientState::Connected {
                if !self.await_ping {
                    (self.ping(), None)
                } else {
                    (self.unbind(), None)
                }
            } else {
                (self, Some(accepted))
            },
            Err(_) => (self, Some(accepted)),
        }
    }

    /// The time in milliseconds since the last flush, at `now`.
    pub open spec fn elapsed(self, now: u64) -> int {
        if now >= self.last_flush {
            now - self.last_flush
        } else {
            0
        }
    }

    /// How long the next read may take, in milliseconds, at `now`: what
    /// is left of the keep-alive, if there is one and a connection. A
    /// timeout if nothing is left.
    pub open spec fn read_timeout(self, now: u64) -> Result<Option<u64>, Error> {
        if self.state == ClientState::Disconnected {
            Ok(None)
        } else {
            match self.keep_alive {
                None => Ok(None),
                Some(secs) => if self.elapsed(now) >= secs * 1000 {
                    Err(Error::Timeout)
                } else {
                    Ok(Some((secs * 1000 - self.elapsed(now)) as u64))
                },
            }
        }
    }

    /// The application is done with the message that came under `pid`:
    /// it must be the last of `incomming_rel`. It leaves the queue and
    /// the incoming store, and PUBCOMP is sent.
    pub open spec fn complete(self, pid: PacketIdentifier) -> (ClientView, Result<(), Error>) {
        if self.incomming_rel.len() > 0 && self.incomming_rel.last() == pid {
            match self.incomming_store {
                None => (self, Err(Error::IncommingStorageAbsent)),
                Some(kept) => (
                    ClientView {
                        incomming_rel: self.incomming_rel.drop_last(),
                        incomming_store: Some(kept.remove(pid.0)),
                        ..self.write(PacketView::Pubcomp(pid))
                    },
                    Ok(()),
                ),
            }
        } else {
            (self, Err(Error::ProtocolViolation))
        }
    }

    /// The message that a publish sends: at tier 0 without a packet
    /// identifier, else with the next one.
    pub open spec fn outgoing_message(
        self,
        topic: TopicPathView,
        payload: Seq<u8>,
        pubopt: PubOpt,
    ) -> MessageView {
        MessageView {
            topic: topic,
            qos: pubopt.spec_qos(),
            retain: pubopt.spec_is_retain(),
            pid: if pubopt.spec_qos() == QoS::AtMostOnce {
                None
            } else {
                Some(self.last_pid.spec_next())
            },
            payload: payload,
        }
    }

    /// A message is published to the topic name `topic`.
    ///
    /// At tier 0 the PUBLISH is sent. At tier 1 the message gets the
    /// next packet identifier, is kept in the outgoing store if there
    /// is one, waits in `outgoing_ack`, and the PUBLISH is sent. At
    /// tier 2 it gets the next packet identifier, is kept in the
    /// outgoing store, which there must be, waits in `outgoing_rec`,
    /// and the PUBLISH is sent. Where the PUBLISH is too long to be
    /// written, nothing happens.
    pub open spec fn publish(
        self,
        topic: Result<TopicPathView, MqttError>,
        payload: Seq<u8>,
        pubopt: PubOpt,
    ) -> (ClientView, Result<(), Error>) {
        match topic {
            Err(e) => (self, Err(Error::Mqtt(e))),
            Ok(topic) => {
                let m = self.outgoing_message(topic, payload, pubopt);
                let publish = PacketView::Publish(m.to_pub(None, false));
                if m.qos == QoS::ExactlyOnce && self.outgoing_store is None {
                    (self, Err(Error::OutgoingStorageAbsent))
                } else if packet_body(publish).len() > max_remaining_length() {
                    (self, Err(Error::Mqtt(MqttError::PayloadTooLong)))
                } else {
                    match m.pid {
                        None => (self.write(publish), Ok(())),
                        Some(pid) => (
                            ClientView {
                                last_pid: pid,
                                outgoing_store: match self.outgoing_store {
                                    Some(kept) => Some(kept.insert(pid.0, m)),
                                    None => None,
                                },
                                outgoing_ack: if m.qos == QoS::AtLeastOnce {
                                    self.outgoing_ack.push(m)
                                } else {
                                    self.outgoing_ack
                                },
                                outgoing_rec: if m.qos == QoS::ExactlyOnce {
                                    self.outgoing_rec.push(m)
                                } else {
                                    self.outgoing_rec
                                },
                                ..self.write(publish)
                            },
                            Ok(()),
                        ),
                    }
                }
            },
        }
    }

    /// A session that was never connected: nothing in its queues, no
    /// subscription, nothing written.
    pub open spec fn start(
        connect: ConnectView,
        keep_alive: Option<u16>,
        reconnect: ReconnectMethod,
        incomming_store: Option<Map<u16, MessageView>>,
        outgoing_store: Option<Map<u16, MessageView>>,
        incomming_fails: bool,
        outgoing_fails: bool,
        now: u64,
    ) -> ClientView {
        ClientView {
            state: ClientState::Disconnected,
            session_present: false,
            last_flush: now,
            last_pid: PacketIdentifier(0),
            await_ping: false,
            resubscribe: false,
            incomming_pub: Seq::empty(),
            incomming_rec: Seq::empty(),
            incomming_rel: Seq::empty(),
            outgoing_ack: Seq::empty(),
            outgoing_rec: Seq::empty(),
            outgoing_comp: Seq::empty(),
            await_suback: Seq::empty(),
            await_unsuback: Seq::empty(),
            subscriptions: Seq::empty(),
            incomming_store: incomming_store,
            outgoing_store: outgoing_store,
            incomming_fails: incomming_fails,
            outgoing_fails: outgoing_fails,
            written: Seq::empty(),
            keep_alive: keep_alive,
            reconnect: reconnect,
            connect: connect,
        }
    }

    /// The handshake starts: CONNECT is sent; or nothing happens, where
    /// it is too long to be written.
    pub open spec fn handshake(self) -> (ClientView, Result<(), Error>) {
        if packet_body(PacketView::Connect(self.connect)).len() > max_remaining_length() {
            (self, Err(Error::Mqtt(MqttError::PayloadTooLong)))
        } else {
            (
                ClientView {
                    state: ClientState::Handshake,
                    ..self.write(PacketView::Connect(self.connect))
                },
                Ok(()),
            )
        }
    }

    /// A new transport is there: unless the session is connected, the
    /// handshake starts, and the subscriptions are asked for again
    /// once the server accepts.
    pub open spec fn reconnect(self) -> (ClientView, Result<(), Error>) {
        if self.state == ClientState::Connected {
            (self, Ok(()))
        } else {
            match self.handshake().1 {
                Err(e) => (self, Err(e)),
                Ok(_) => (ClientView { resubscribe: true, ..self.handshake().0 }, Ok(())),
            }
        }
    }
}

} // verus!
