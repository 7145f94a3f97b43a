//! The session engine.
//!
//! The engine does no input or output. It is handed what a read from
//! the transport gave, and it collects the bytes that are to be written
//! to the transport, which the caller takes and sends.
use std::collections::VecDeque;
use std::time::Duration;
use vstd::prelude::*;
use crate::mqtt3::error::Error as MqttError;
use crate::mqtt3::mqtt::{
    strings_view, topics_view, ConnectView, Packet, PacketView, Suback, Subscribe,
    SubscribeReturnCodes, SubscribeTopic, SubscribeTopicView, SubscribeView, Unsubscribe,
    UnsubscribeView,
};
use crate::mqtt3::msg::{Message, MessageView};
use crate::mqtt3::topic::{topic_name_of, ToTopicPath, TopicPath};
use crate::mqtt3::wire::{max_remaining_length, packet_body, packet_bytes};
use crate::mqtt3::write::{fits, MqttWrite};
use crate::mqtt3::{ConnectReturnCode, PacketIdentifier, QoS};
use crate::netopt::error::ErrorKind;
use super::error::{Error, Result};
use super::options::{generated_client_id, ClientOptions};
use super::pubopt::PubOpt;
use super::session::{
    granted, popped, subs_insert, subs_insert_all, subs_remove, subs_remove_all,
    subscribe_topics_of, views, ClientView, Delivery, IncomingView,
};
use super::store::{Error as StorageError, Store};
use super::sub::{Subscription, SubscriptionView, ToSubTopics, ToUnSubTopics};
use super::{ClientState, ReconnectMethod, ToPayload};

verus! {

/// What a read from the transport gave: a packet, an error of the
/// decoder, or an error of the transport.
#[derive(Debug)]
pub enum Incoming {
    Packet(Packet),
    Mqtt(MqttError),
    Io(ErrorKind),
}

impl View for Incoming {
    type V = IncomingView;

    open spec fn view(&self) -> IncomingView {
        match self {
            Incoming::Packet(p) => IncomingView::Packet(p@),
            Incoming::Mqtt(e) => IncomingView::Mqtt(*e),
            Incoming::Io(kind) => IncomingView::Io(*kind),
        }
    }
}

/// What a store holds, if there is one.
pub open spec fn store_view(store: Option<Box<dyn Store>>) -> Option<Map<u16, MessageView>> {
    match store {
        Some(s) => Some(s.contents()),
        None => None,
    }
}

/// The view of what handling an event gave.
pub open spec fn delivery_view(r: Result<Option<Message>>) -> Delivery {
    match r {
        Ok(Some(m)) => Ok(Some(m@)),
        Ok(None) => Ok(None),
        Err(e) => Err(e),
    }
}

/// How an operation went that may have asked a store: the session and
/// the result are the expected ones; or, but only where the operation
/// asked a store that may fail, the store failed, the session is as it
/// was, and the store's error is returned.
pub open spec fn done<R>(
    before: ClientView,
    after: ClientView,
    got: core::result::Result<R, Error>,
    expected: (ClientView, core::result::Result<R, Error>),
    may_fail: bool,
) -> bool {
    match got {
        Err(Error::Storage(e)) => may_fail && e is Unavailable && after == before,
        _ => after == expected.0 && got == expected.1,
    }
}

/// Whether a store may fail, if there is one.
pub open spec fn store_fails(store: Option<Box<dyn Store>>) -> bool {
    match store {
        Some(s) => !s.reliable(),
        None => false,
    }
}

/// A session with a server.
pub struct Client {
    pub state: ClientState,
    pub opts: ClientOptions,
    /// The bytes that are to be written to the transport.
    pub outgoing: Vec<u8>,
    pub session_present: bool,
    /// When the last packet was handed to the transport, in
    /// milliseconds.
    pub last_flush: u64,
    pub last_pid: PacketIdentifier,
    pub await_ping: bool,
    pub resubscribe: bool,
    pub incomming_pub: VecDeque<Message>,
    pub incomming_rec: VecDeque<Message>,
    pub incomming_rel: VecDeque<PacketIdentifier>,
    pub outgoing_ack: VecDeque<Message>,
    pub outgoing_rec: VecDeque<Message>,
    pub outgoing_comp: VecDeque<PacketIdentifier>,
    pub await_suback: VecDeque<Subscribe>,
    pub await_unsuback: VecDeque<Unsubscribe>,
    pub subscriptions: Vec<Subscription>,
}

impl View for Client {
    type V = ClientView;

    open spec fn view(&self) -> ClientView {
        ClientView {
            state: self.state,
            session_present: self.session_present,
            last_flush: self.last_flush,
            last_pid: self.last_pid,
            await_ping: self.await_ping,
            resubscribe: self.resubscribe,
            incomming_pub: views(self.incomming_pub@),
            incomming_rec: views(self.incomming_rec@),
            incomming_rel: self.incomming_rel@,
            outgoing_ack: views(self.outgoing_ack@),
            outgoing_rec: views(self.outgoing_rec@),
            outgoing_comp: self.outgoing_comp@,
            await_suback: views(self.await_suback@),
            await_unsuback: views(self.await_unsuback@),
            subscriptions: views(self.subscriptions@),
            incomming_store: store_view(self.opts.incomming_store),
            outgoing_store: store_view(self.opts.outgoing_store),
            incomming_fails: store_fails(self.opts.incomming_store),
            outgoing_fails: store_fails(self.opts.outgoing_store),
            written: self.outgoing@,
            keep_alive: self.opts.keep_alive,
            reconnect: self.opts.reconnect,
            connect: self.opts.connect_view(),
        }
    }
}

/// Appends to a queue.
fn push<T: View>(queue: &mut VecDeque<T>, item: T)
    ensures
        views(final(queue)@) == views(old(queue)@).push(item@),
        final(queue)@ == old(queue)@.push(item),
{
    queue.push_back(item);
    assert(views(queue@) =~= views(old(queue)@).push(item@));
}

/// Takes the first of a queue, if it has one.
fn pop<T: View>(queue: &mut VecDeque<T>) -> (first: Option<T>)
    ensures
        views(final(queue)@) == popped(views(old(queue)@)),
        final(queue)@ == popped(old(queue)@),
        match first {
            Some(item) => old(queue)@.len() > 0 && item == old(queue)@[0],
            None => old(queue)@.len() == 0,
        },
{
    let first = queue.pop_front();
    assert(views(queue@) =~= popped(views(old(queue)@)));
    assert(queue@ =~= popped(old(queue)@));
    first
}

/// The subscriptions with `sub` in place of the first one for the same
/// filter, or behind them if there is none.
fn insert_subscription(subs: &mut Vec<Subscription>, sub: Subscription)
    ensures
        views(final(subs)@) == subs_insert(views(old(subs)@), sub@),
{
    let ghost before = views(subs@);
    let mut i: usize = 0;
    assert(before.skip(0) =~= before);
    assert(before.take(0) + subs_insert(before.skip(0), sub@) =~= subs_insert(before, sub@));
    while i < subs.len()
        invariant
            i <= subs@.len(),
            subs@ == old(subs)@,
            before == views(subs@),
            subs_insert(before, sub@) == before.take(i as int) + subs_insert(
                before.skip(i as int),
                sub@,
            ),
        decreases subs@.len() - i,
    {
        let ghost rest = before.skip(i as int);
        assert(rest[0] == before[i as int]);
        assert(rest.drop_first() =~= before.skip(i + 1));
        if subs[i].topic_path.path == sub.topic_path.path {
            let ghost item = sub@;
            subs.set(i, sub);
            assert(views(subs@) =~= before.take(i as int) + (seq![item] + rest.drop_first()));
            return ;
        }
        assert(before.take(i as int) + (seq![rest[0]] + subs_insert(rest.drop_first(), sub@))
            =~= before.take(i + 1) + subs_insert(before.skip(i + 1), sub@));
        i += 1;
    }
    let ghost item = sub@;
    subs.push(sub);
    assert(before.skip(i as int) =~= Seq::<SubscriptionView>::empty());
    assert(views(subs@) =~= before.take(i as int) + seq![item]);
}

/// The subscriptions without those for the filter `path`.
fn remove_subscription(subs: &mut Vec<Subscription>, path: &String)
    ensures
        views(final(subs)@) == subs_remove(views(old(subs)@), path@),
{
    let ghost before = views(subs@);
    let mut kept: Vec<Subscription> = Vec::new();
    let mut i: usize = 0;
    assert(before.take(0) =~= Seq::<SubscriptionView>::empty());
    while i < subs.len()
        invariant
            i <= subs@.len(),
            subs@ == old(subs)@,
            before == views(subs@),
            views(kept@) == subs_remove(before.take(i as int), path@),
        decreases subs@.len() - i,
    {
        let ghost next = before.take(i + 1);
        assert(next.drop_last() =~= before.take(i as int));
        assert(next.last() == before[i as int]);
        if !(subs[i].topic_path.path == *path) {
            let copy = subs[i].clone();
            let ghost done = views(kept@);
            kept.push(copy);
            assert(views(kept@) =~= done.push(before[i as int]));
        }
        i += 1;
    }
    assert(before.take(i as int) =~= before);
    *subs = kept;
}

impl Client {
    /// The session can open a connection: it has a client identifier.
    pub open spec fn wf(&self) -> bool {
        self.opts.client_id is Some
    }

    /// Appends a packet to the bytes that are to be written, or
    /// nothing if the packet is too long.
    pub fn _write_packet(&mut self, packet: &Packet) -> (r: Result<()>)
        ensures
            match r {
                Ok(_) => packet_body(packet@).len() <= max_remaining_length() && final(self)@
                    == old(self)@.write(packet@),
                Err(e) => e == Error::Mqtt(MqttError::PayloadTooLong) && packet_body(
                    packet@,
                ).len() > max_remaining_length() && final(self)@ == old(self)@,
            },
            final(self).opts == old(self).opts,
    {
        match self.outgoing.write_packet(packet) {
            Ok(_) => Ok(()),
            Err(e) => Err(Error::Mqtt(e)),
        }
    }

    /// Appends a packet that holds a packet identifier and no more, or
    /// nothing at all: such a packet is never too long.
    fn write_short(&mut self, packet: &Packet)
        requires
            packet_body(packet@).len() <= 2,
        ensures
            final(self)@ == old(self)@.write(packet@),
            final(self).opts == old(self).opts,
    {
        let _ = self._write_packet(packet);
    }

    /// Gives up the transport: nothing waits for a SUBACK, an UNSUBACK
    /// or a PINGRESP any more. The queues of messages, the stores and
    /// the subscriptions stay.
    pub fn _unbind(&mut self)
        ensures
            final(self)@ == old(self)@.unbind(),
            final(self).opts == old(self).opts,
    {
        self.await_unsuback.clear();
        self.await_suback.clear();
        self.await_ping = false;
        self.state = ClientState::Disconnected;
        assert(views(self.await_unsuback@) =~= Seq::<UnsubscribeView>::empty());
        assert(views(self.await_suback@) =~= Seq::<SubscribeView>::empty());
    }

    /// Gives up the transport, as `_unbind` does.
    pub fn terminate(&mut self)
        ensures
            final(self)@ == old(self)@.unbind(),
            final(self).opts == old(self).opts,
    {
        self._unbind();
    }

    pub fn set_reconnect(&mut self, reconnect: ReconnectMethod)
        ensures
            final(self)@ == (ClientView { reconnect: reconnect, ..old(self)@ }),
            final(self).wf() == old(self).wf(),
    {
        self.opts.reconnect = reconnect;
    }

    pub fn session_present(&self) -> (present: bool)
        ensures
            present == self@.session_present,
    {
        self.session_present
    }

    /// Whether the session is connected with nothing outstanding.
    pub fn _normalized(&self) -> (normalized: bool)
        ensures
            normalized == self@.normalized(),
    {
        (match self.state {
            ClientState::Connected => true,
            _ => false,
        }) && (!self.await_ping) && (self.outgoing_ack.len() == 0) && (self.outgoing_rec.len()
            == 0) && (self.incomming_pub.len() == 0) && (self.incomming_rec.len() == 0) && (
        self.incomming_rel.len() == 0) && (self.await_suback.len() == 0) && (
        self.await_unsuback.len() == 0)
    }

    /// The next packet identifier, which becomes the last one.
    pub fn _next_pid(&mut self) -> (pid: PacketIdentifier)
        ensures
            pid == old(self).last_pid.spec_next(),
            pid.0 != 0,
            final(self)@ == (ClientView { last_pid: pid, ..old(self)@ }),
            final(self).opts == old(self).opts,
    {
        self.last_pid = self.last_pid.next();
        self.last_pid
    }

    /// Takes the bytes that are to be written to the transport.
    pub fn take_outgoing(&mut self) -> (bytes: Vec<u8>)
        ensures
            bytes@ == old(self)@.written,
            final(self)@ == (ClientView { written: Seq::empty(), ..old(self)@ }),
            final(self).opts == old(self).opts,
    {
        let mut bytes: Vec<u8> = Vec::new();
        core::mem::swap(&mut self.outgoing, &mut bytes);
        bytes
    }

    /// Notes that the transport took all it was given, at `now`.
    pub fn flushed(&mut self, now: u64)
        ensures
            final(self)@ == (ClientView { last_flush: now, ..old(self)@ }),
            final(self).opts == old(self).opts,
    {
        self.last_flush = now;
    }

    /// How long the next read may take, in milliseconds, at `now`.
    pub fn read_timeout(&self, now: u64) -> (r: Result<Option<u64>>)
        ensures
            r == self@.read_timeout(now),
    {
        match self.state {
            ClientState::Disconnected => Ok(None),
            _ => match self.opts.keep_alive {
                None => Ok(None),
                Some(secs) => {
                    let elapsed: u64 = if now >= self.last_flush {
                        now - self.last_flush
                    } else {
                        0
                    };
                    let keep_alive: u64 = (secs as u64) * 1000;
                    if elapsed >= keep_alive {
                        Err(Error::Timeout)
                    } else {
                        Ok(Some(keep_alive - elapsed))
                    }
                },
            },
        }
    }

    /// How long to wait before a new transport is opened, if the
    /// session is to reconnect.
    pub fn reconnect_delay(&self) -> (delay: Option<Duration>)
        ensures
            delay == match self@.reconnect {
                ReconnectMethod::ForeverDisconnect => None::<Duration>,
                ReconnectMethod::ReconnectAfter(dur) => Some(dur),
            },
    {
        match self.opts.reconnect {
            ReconnectMethod::ForeverDisconnect => None,
            ReconnectMethod::ReconnectAfter(dur) => Some(dur),
        }
    }

    /// Sends a PINGREQ, which waits for its PINGRESP.
    pub fn ping(&mut self) -> (r: Result<()>)
        ensures
            r is Ok,
            final(self)@ == old(self)@.ping(),
            final(self).opts == old(self).opts,
    {
        self.await_ping = true;
        self.write_short(&Packet::Pingreq);
        Ok(())
    }
}

/// A granted filter that is no topic path among the first filters
/// makes the whole SUBACK an error.
proof fn lemma_granted_prefix_err(
    pid: PacketIdentifier,
    topics: Seq<SubscribeTopicView>,
    codes: Seq<SubscribeReturnCodes>,
    k: int,
)
    requires
        topics.len() == codes.len(),
        0 <= k <= topics.len(),
        granted(pid, topics.take(k), codes.take(k)) is Err,
    ensures
        granted(pid, topics, codes) == granted(pid, topics.take(k), codes.take(k)),
    decreases topics.len() - k,
{
    if k == topics.len() {
        assert(topics.take(k) =~= topics);
        assert(codes.take(k) =~= codes);
    } else {
        assert(topics.take(k + 1).drop_last() =~= topics.take(k));
        assert(codes.take(k + 1).drop_last() =~= codes.take(k));
        lemma_granted_prefix_err(pid, topics, codes, k + 1);
    }
}

impl Client {
    /// Handles a message that came in.
    ///
    /// At tier 0 it is delivered. At tier 1 it is acknowledged and
    /// delivered. At tier 2 it is kept in the incoming store and
    /// received, and not delivered; one whose packet identifier the
    /// store holds already is only received again.
    pub fn _handle_message(&mut self, message: Message) -> (r: Result<Option<Message>>)
        ensures
            done(
                old(self)@,
                final(self)@,
                delivery_view(r),
                old(self)@.on_message(message@),
                old(self)@.message_may_fail(message@),
            ),
            final(self).wf() == old(self).wf(),
    {
        match message.qos {
            QoS::AtMostOnce => Ok(Some(message)),
            QoS::AtLeastOnce => {
                let pid = match message.pid {
                    Some(pid) => pid,
                    None => {
                        self._unbind();
                        return Err(Error::ProtocolViolation);
                    },
                };
                push(&mut self.incomming_pub, message.clone());
                self.write_short(&Packet::Puback(pid));
                let _ = pop(&mut self.incomming_pub);
                Ok(Some(message))
            },
            QoS::ExactlyOnce => {
                let pid = match message.pid {
                    Some(pid) => pid,
                    None => {
                        self._unbind();
                        return Err(Error::ProtocolViolation);
                    },
                };
                let known = match &mut self.opts.incomming_store {
                    None => {
                        return Err(Error::IncommingStorageAbsent);
                    },
                    Some(store) => match store.get(pid) {
                        Ok(_) => true,
                        Err(StorageError::NotFound(_)) => false,
                        Err(e) => {
                            return Err(Error::Storage(e));
                        },
                    },
                };
                if !known {
                    match &mut self.opts.incomming_store {
                        None => {},
                        Some(store) => match store.put(message.clone()) {
                            Ok(_) => {},
                            Err(e) => {
                                return Err(Error::Storage(e));
                            },
                        },
                    }
                    push(&mut self.incomming_rec, message);
                }
                self.write_short(&Packet::Pubrec(pid));
                Ok(None)
            },
        }
    }

    /// Sends a SUBSCRIBE for every filter of the subscriptions, with
    /// the granted tiers.
    pub fn _resubscribe(&mut self)
        ensures
            final(self)@ == old(self)@.resubscribed(),
            final(self).opts == old(self).opts,
    {
        let mut topics: Vec<SubscribeTopic> = Vec::new();
        let mut i: usize = 0;
        while i < self.subscriptions.len()
            invariant
                i <= self.subscriptions@.len(),
                topics@.len() == i,
                forall|j: int|
                    0 <= j < i ==> (#[trigger] topics@[j])@
                        == self.subscriptions@[j]@.to_subscribe_topic(),
            decreases self.subscriptions@.len() - i,
        {
            topics.push(self.subscriptions[i].to_subscribe_topic());
            i += 1;
        }
        assert(topics_view(topics@) =~= subscribe_topics_of(views(self.subscriptions@)));
        let _ = self._subscribe(topics);
        self.resubscribe = false;
    }

    /// Handles a packet that came in during the handshake.
    fn on_handshake(&mut self, packet: Packet) -> (r: Result<Option<Message>>)
        ensures
            final(self)@ == old(self)@.on_handshake(packet@).0,
            delivery_view(r) == old(self)@.on_handshake(packet@).1,
            final(self).opts == old(self).opts,
    {
        match packet {
            Packet::Connack(connack) => {
                match connack.code {
                    ConnectReturnCode::Accepted => {
                        self.session_present = connack.session_present;
                        self.state = ClientState::Connected;
                        if self.resubscribe {
                            self._resubscribe();
                        }
                        Ok(None)
                    },
                    code => {
                        self._unbind();
                        Err(Error::ConnectionRefused(code))
                    },
                }
            },
            _ => {
                self._unbind();
                Err(Error::HandshakeFailed)
            },
        }
    }

    /// Handles a PUBACK.
    fn on_puback(&mut self, pid: PacketIdentifier) -> (r: Result<Option<Message>>)
        ensures
            done(
                old(self)@,
                final(self)@,
                delivery_view(r),
                old(self)@.on_puback(pid),
                old(self)@.connected_may_fail(PacketView::Puback(pid)),
            ),
            final(self).wf() == old(self).wf(),
    {
        let matches = self.outgoing_ack.len() > 0 && (match self.outgoing_ack[0].pid {
            Some(head) => head.0 == pid.0,
            None => false,
        }) && (match self.outgoing_ack[0].qos {
            QoS::AtLeastOnce => true,
            _ => false,
        });
        if !matches {
            let _ = pop(&mut self.outgoing_ack);
            self._unbind();
            return Err(Error::UnhandledPuback(pid));
        }
        match &mut self.opts.outgoing_store {
            None => {},
            Some(store) => match store.delete(pid) {
                Ok(_) => {},
                Err(e) => {
                    return Err(Error::Storage(e));
                },
            },
        }
        let _ = pop(&mut self.outgoing_ack);
        Ok(None)
    }

    /// Handles a PUBREC.
    fn on_pubrec(&mut self, pid: PacketIdentifier) -> (r: Result<Option<Message>>)
        ensures
            done(
                old(self)@,
                final(self)@,
                delivery_view(r),
                old(self)@.on_pubrec(pid),
                old(self)@.connected_may_fail(PacketView::Pubrec(pid)),
            ),
            final(self).wf() == old(self).wf(),
    {
        let matches = self.outgoing_rec.len() > 0 && (match self.outgoing_rec[0].pid {
            Some(head) => head.0 == pid.0,
            None => false,
        });
        if !matches {
            let _ = pop(&mut self.outgoing_rec);
            self._unbind();
            return Err(Error::UnhandledPubrec(pid));
        }
        match &mut self.opts.outgoing_store {
            None => {
                return Err(Error::OutgoingStorageAbsent);
            },
            Some(store) => match store.delete(pid) {
                Ok(_) => {},
                Err(e) => {
                    return Err(Error::Storage(e));
                },
            },
        }
        let _ = pop(&mut self.outgoing_rec);
        self.write_short(&Packet::Pubrel(pid));
        self.outgoing_comp.push_back(pid);
        Ok(None)
    }

    /// Handles a PUBREL.
    fn on_pubrel(&mut self, pid: PacketIdentifier) -> (r: Result<Option<Message>>)
        ensures
            done(
                old(self)@,
                final(self)@,
                delivery_view(r),
                old(self)@.on_pubrel(pid),
                old(self)@.connected_may_fail(PacketView::Pubrel(pid)),
            ),
            final(self).wf() == old(self).wf(),
    {
        let matches = self.incomming_rec.len() > 0 && (match self.incomming_rec[0].pid {
            Some(head) => head.0 == pid.0,
            None => false,
        });
        if !matches {
            let _ = pop(&mut self.incomming_rec);
            self._unbind();
            return Err(Error::UnhandledPubrel(pid));
        }
        let found = match &mut self.opts.incomming_store {
            None => {
                return Err(Error::IncommingStorageAbsent);
            },
            Some(store) => match store.get(pid) {
                Ok(message) => Some(message),
                Err(StorageError::NotFound(_)) => None,
                Err(e) => {
                    return Err(Error::Storage(e));
                },
            },
        };
        let _ = pop(&mut self.incomming_rec);
        match found {
            Some(message) => {
                self.incomming_rel.push_back(pid);
                Ok(Some(message))
            },
            None => {
                self.write_short(&Packet::Pubcomp(pid));
                Ok(None)
            },
        }
    }

    /// Handles a PUBCOMP.
    fn on_pubcomp(&mut self, pid: PacketIdentifier) -> (r: Result<Option<Message>>)
        ensures
            final(self)@ == old(self)@.on_pubcomp(pid).0,
            delivery_view(r) == old(self)@.on_pubcomp(pid).1,
            final(self).opts == old(self).opts,
    {
        let head = self.outgoing_comp.pop_front();
        assert(self.outgoing_comp@ =~= popped(old(self).outgoing_comp@));
        match head {
            Some(head) => {
                if head.0 == pid.0 {
                    return Ok(None);
                }
            },
            None => {},
        }
        self._unbind();
        Err(Error::UnhandledPubcomp(pid))
    }

    /// Handles a SUBACK.
    fn on_suback(&mut self, suback: &Suback) -> (r: Result<Option<Message>>)
        ensures
            final(self)@ == old(self)@.on_suback(suback@).0,
            delivery_view(r) == old(self)@.on_suback(suback@).1,
            final(self).opts == old(self).opts,
    {
        let subscribe = match pop(&mut self.await_suback) {
            Some(subscribe) => subscribe,
            None => {
                self._unbind();
                return Err(Error::ProtocolViolation);
            },
        };
        if subscribe.pid.0 != suback.pid.0 || subscribe.topics.len() != suback.return_codes.len() {
            self._unbind();
            return Err(Error::ProtocolViolation);
        }
        let ghost topics = topics_view(subscribe.topics@);
        let ghost codes = suback.return_codes@;
        let mut subs: Vec<Subscription> = Vec::new();
        let mut i: usize = 0;
        let ghost waiting = self@;
        assert(topics.take(0) =~= Seq::<SubscribeTopicView>::empty());
        assert(views(subs@) =~= Seq::<SubscriptionView>::empty());
        while i < subscribe.topics.len()
            invariant
                i <= subscribe.topics@.len(),
                self@ == waiting,
                self.opts == old(self).opts,
                waiting == (ClientView {
                    await_suback: old(self)@.await_suback.drop_first(),
                    ..old(self)@
                }),
                old(self)@.await_suback.len() > 0,
                old(self)@.await_suback[0].pid == suback.pid,
                old(self)@.await_suback[0].topics == topics,
                topics == topics_view(subscribe.topics@),
                codes == suback.return_codes@,
                topics.len() == codes.len(),
                granted(suback.pid, topics.take(i as int), codes.take(i as int)) == Ok::<
                    Seq<SubscriptionView>,
                    MqttError,
                >(views(subs@)),
            decreases subscribe.topics@.len() - i,
        {
            proof {
                assert(topics.take(i + 1).drop_last() =~= topics.take(i as int));
                assert(codes.take(i + 1).drop_last() =~= codes.take(i as int));
                assert(topics.take(i + 1).last() == topics[i as int]);
                assert(codes.take(i + 1).last() == codes[i as int]);
            }
            match suback.return_codes[i] {
                SubscribeReturnCodes::Success(qos) => {
                    match TopicPath::from_str(subscribe.topics[i].topic_path.as_str()) {
                        Ok(topic_path) => {
                            let ghost before = views(subs@);
                            let sub = Subscription {
                                pid: suback.pid,
                                topic_path: topic_path,
                                qos: qos,
                            };
                            subs.push(sub);
                            assert(views(subs@) =~= before.push(sub@));
                        },
                        Err(e) => {
                            proof {
                                lemma_granted_prefix_err(suback.pid, topics, codes, i + 1);
                            }
                            return Err(Error::Mqtt(e));
                        },
                    }
                },
                SubscribeReturnCodes::Failure => {},
            }
            i += 1;
        }
        assert(topics.take(i as int) =~= topics);
        assert(codes.take(i as int) =~= codes);
        let ghost items = views(subs@);
        let ghost start = views(self.subscriptions@);
        let mut j: usize = 0;
        assert(items.take(0) =~= Seq::<SubscriptionView>::empty());
        while j < subs.len()
            invariant
                j <= subs@.len(),
                items == views(subs@),
                views(self.subscriptions@) == subs_insert_all(start, items.take(j as int)),
                self.state == old(self).state,
                self.opts == old(self).opts,
                self.outgoing == old(self).outgoing,
                self.session_present == old(self).session_present,
                self.last_flush == old(self).last_flush,
                self.last_pid == old(self).last_pid,
                self.await_ping == old(self).await_ping,
                self.resubscribe == old(self).resubscribe,
                self.incomming_pub == old(self).incomming_pub,
                self.incomming_rec == old(self).incomming_rec,
                self.incomming_rel == old(self).incomming_rel,
                self.outgoing_ack == old(self).outgoing_ack,
                self.outgoing_rec == old(self).outgoing_rec,
                self.outgoing_comp == old(self).outgoing_comp,
                views(self.await_suback@) == popped(views(old(self).await_suback@)),
                self.await_unsuback == old(self).await_unsuback,
            decreases subs@.len() - j,
        {
            proof {
                assert(items.take(j + 1).drop_last() =~= items.take(j as int));
                assert(items.take(j + 1).last() == items[j as int]);
            }
            insert_subscription(&mut self.subscriptions, subs[j].clone());
            j += 1;
        }
        assert(items.take(j as int) =~= items);
        Ok(None)
    }

    /// Handles an UNSUBACK.
    fn on_unsuback(&mut self, pid: PacketIdentifier) -> (r: Result<Option<Message>>)
        ensures
            final(self)@ == old(self)@.on_unsuback(pid).0,
            delivery_view(r) == old(self)@.on_unsuback(pid).1,
            final(self).opts == old(self).opts,
    {
        let unsubscribe = match pop(&mut self.await_unsuback) {
            Some(unsubscribe) => unsubscribe,
            None => {
                self._unbind();
                return Err(Error::ProtocolViolation);
            },
        };
        if unsubscribe.pid.0 != pid.0 {
            self._unbind();
            return Err(Error::ProtocolViolation);
        }
        let ghost paths = strings_view(unsubscribe.topics@);
        let ghost start = views(self.subscriptions@);
        let mut j: usize = 0;
        assert(paths.take(0) =~= Seq::<Seq<char>>::empty());
        while j < unsubscribe.topics.len()
            invariant
                j <= unsubscribe.topics@.len(),
                paths == strings_view(unsubscribe.topics@),
                views(self.subscriptions@) == subs_remove_all(start, paths.take(j as int)),
                self.state == old(self).state,
                self.opts == old(self).opts,
                self.outgoing == old(self).outgoing,
                self.session_present == old(self).session_present,
                self.last_flush == old(self).last_flush,
                self.last_pid == old(self).last_pid,
                self.await_ping == old(self).await_ping,
                self.resubscribe == old(self).resubscribe,
                self.incomming_pub == old(self).incomming_pub,
                self.incomming_rec == old(self).incomming_rec,
                self.incomming_rel == old(self).incomming_rel,
                self.outgoing_ack == old(self).outgoing_ack,
                self.outgoing_rec == old(self).outgoing_rec,
                self.outgoing_comp == old(self).outgoing_comp,
                self.await_suback == old(self).await_suback,
                views(self.await_unsuback@) == popped(views(old(self).await_unsuback@)),
            decreases unsubscribe.topics@.len() - j,
        {
            proof {
                assert(paths.take(j + 1).drop_last() =~= paths.take(j as int));
                assert(paths.take(j + 1).last() == paths[j as int]);
            }
            remove_subscription(&mut self.subscriptions, &unsubscribe.topics[j]);
            j += 1;
        }
        assert(paths.take(j as int) =~= paths);
        Ok(None)
    }

    /// Handles a packet that came in while connected.
    fn on_connected(&mut self, packet: Packet) -> (r: Result<Option<Message>>)
        ensures
            done(
                old(self)@,
                final(self)@,
                delivery_view(r),
                old(self)@.on_connected(packet@),
                old(self)@.connected_may_fail(packet@),
            ),
            final(self).wf() == old(self).wf(),
    {
        match packet {
            Packet::Connack(_) => {
                self._unbind();
                Err(Error::AlreadyConnected)
            },
            Packet::Publish(publish) => {
                match Message::from_pub(publish) {
                    Ok(message) => self._handle_message(message),
                    Err(e) => Err(Error::Mqtt(e)),
                }
            },
            Packet::Puback(pid) => self.on_puback(pid),
            Packet::Pubrec(pid) => self.on_pubrec(pid),
            Packet::Pubrel(pid) => self.on_pubrel(pid),
            Packet::Pubcomp(pid) => self.on_pubcomp(pid),
            Packet::Suback(suback) => self.on_suback(&suback),
            Packet::Unsuback(pid) => self.on_unsuback(pid),
            Packet::Pingresp => {
                self.await_ping = false;
                Ok(None)
            },
            _ => {
                self._unbind();
                Err(Error::UnrecognizedPacket)
            },
        }
    }

    /// Handles a packet that came in: what it changes in the session,
    /// what it makes the session send, and what it delivers to the
    /// application.
    pub fn _parse_packet(&mut self, packet: Packet) -> (r: Result<Option<Message>>)
        ensures
            done(
                old(self)@,
                final(self)@,
                delivery_view(r),
                old(self)@.on_packet(packet@),
                old(self)@.packet_may_fail(packet@),
            ),
            final(self).wf() == old(self).wf(),
    {
        match self.state {
            ClientState::Handshake => self.on_handshake(packet),
            ClientState::Connected => self.on_connected(packet),
            ClientState::Disconnected => {
                self._unbind();
                Err(Error::ConnectionAbort)
            },
        }
    }

    /// The connection is lost: the transport is given up, and the
    /// caller is told to go on if the session is to reconnect.
    fn lost(&mut self) -> (r: Result<Option<Message>>)
        ensures
            final(self)@ == old(self)@.lost().0,
            delivery_view(r) == old(self)@.lost().1,
            final(self).opts == old(self).opts,
    {
        self._unbind();
        match self.opts.reconnect {
            ReconnectMethod::ForeverDisconnect => Err(Error::Disconnected),
            ReconnectMethod::ReconnectAfter(_) => Ok(None),
        }
    }

    /// Handles what a read from the transport gave.
    pub fn accept(&mut self, incoming: Incoming) -> (r: Result<Option<Message>>)
        ensures
            done(
                old(self)@,
                final(self)@,
                delivery_view(r),
                old(self)@.accept(incoming@),
                old(self)@.accept_may_fail(incoming@),
            ),
            final(self).wf() == old(self).wf(),
    {
        match self.state {
            ClientState::Disconnected => {
                return self.lost();
            },
            _ => {},
        }
        match incoming {
            Incoming::Packet(packet) => self._parse_packet(packet),
            Incoming::Mqtt(e) => match e {
                MqttError::UnexpectedEof => self.lost(),
                _ => {
                    self._unbind();
                    Err(Error::Mqtt(e))
                },
            },
            Incoming::Io(kind) => {
                if kind.is_timeout() {
                    Err(Error::Timeout)
                } else if kind.is_connection_lost() {
                    self.lost()
                } else {
                    self._unbind();
                    Err(Error::Io(kind))
                }
            },
        }
    }

    /// What the wait for a message makes of a handled read: `Some` of
    /// what it returns, or `None` to read again.
    pub fn after_accept(&mut self, accepted: Result<Option<Message>>) -> (r: Option<
        Result<Option<Message>>,
    >)
        ensures
            final(self)@ == old(self)@.after_accept(delivery_view(accepted)).0,
            match old(self)@.after_accept(delivery_view(accepted)).1 {
                Some(d) => r matches Some(got) && delivery_view(got) == d,
                None => r is None,
            },
            final(self).opts == old(self).opts,
    {
        match accepted {
            Ok(Some(message)) => Some(Ok(Some(message))),
            Ok(None) => {
                if self._normalized() {
                    Some(Ok(None))
                } else {
                    None
                }
            },
            Err(Error::Timeout) => {
                match self.state {
                    ClientState::Connected => {
                        if !self.await_ping {
                            let _ = self.ping();
                        } else {
                            self._unbind();
                        }
                        None
                    },
                    _ => Some(Err(Error::Timeout)),
                }
            },
            Err(e) => Some(Err(e)),
        }
    }

    /// The application is done with the message that came under `pid`.
    pub fn complete(&mut self, pid: PacketIdentifier) -> (r: Result<()>)
        ensures
            done(
                old(self)@,
                final(self)@,
                r,
                old(self)@.complete(pid),
                old(self)@.complete_may_fail(pid),
            ),
            final(self).wf() == old(self).wf(),
    {
        let len = self.incomming_rel.len();
        if !(len > 0 && self.incomming_rel[len - 1].0 == pid.0) {
            return Err(Error::ProtocolViolation);
        }
        match &mut self.opts.incomming_store {
            None => {
                return Err(Error::IncommingStorageAbsent);
            },
            Some(store) => match store.delete(pid) {
                Ok(_) => {},
                Err(e) => {
                    return Err(Error::Storage(e));
                },
            },
        }
        let _ = self.incomming_rel.pop_back();
        assert(self.incomming_rel@ =~= old(self).incomming_rel@.drop_last());
        self.write_short(&Packet::Pubcomp(pid));
        Ok(())
    }

    /// Publishes a message to a topic name.
    pub fn _publish<T: ToTopicPath, P: ToPayload>(
        &mut self,
        topic: T,
        payload: P,
        pubopt: PubOpt,
    ) -> (r: Result<()>)
        ensures
            done(
                old(self)@,
                final(self)@,
                r,
                old(self)@.publish(
                    topic_name_of(topic.parsed()),
                    payload.payload_bytes(),
                    pubopt,
                ),
                old(self)@.publish_may_fail(topic_name_of(topic.parsed()), pubopt),
            ),
            final(self).wf() == old(self).wf(),
    {
        let topic = match topic.to_topic_name() {
            Ok(topic) => topic,
            Err(e) => {
                return Err(Error::Mqtt(e));
            },
        };
        let qos = pubopt.qos();
        let pid = match qos {
            QoS::AtMostOnce => None,
            _ => Some(self.last_pid.next()),
        };
        let message = Message {
            topic: topic,
            qos: qos,
            retain: pubopt.is_retain(),
            pid: pid,
            payload: payload.to_payload(),
        };
        match qos {
            QoS::ExactlyOnce => {
                if self.opts.outgoing_store.is_none() {
                    return Err(Error::OutgoingStorageAbsent);
                }
            },
            _ => {},
        }
        let packet = Packet::Publish(message.to_pub(None, false));
        if !fits(&packet) {
            return Err(Error::Mqtt(MqttError::PayloadTooLong));
        }
        match pid {
            None => {},
            Some(pid) => {
                match &mut self.opts.outgoing_store {
                    None => {},
                    Some(store) => match store.put(message.clone()) {
                        Ok(_) => {},
                        Err(e) => {
                            return Err(Error::Storage(e));
                        },
                    },
                }
                self.last_pid = pid;
                match qos {
                    QoS::AtLeastOnce => {
                        push(&mut self.outgoing_ack, message);
                    },
                    _ => {
                        push(&mut self.outgoing_rec, message);
                    },
                }
            },
        }
        let _ = self.outgoing.write_packet(&packet);
        Ok(())
    }

    /// Sends a SUBSCRIBE for some topic filters, which waits for its
    /// SUBACK.
    pub fn _subscribe<S: ToSubTopics>(&mut self, subs: S) -> (r: Result<()>)
        ensures
            final(self)@ == old(self)@.subscribe(subs.sub_topics()).0,
            r == old(self)@.subscribe(subs.sub_topics()).1,
            final(self).opts == old(self).opts,
    {
        let topics = match subs.to_subscribe_topics() {
            Ok(topics) => topics,
            Err(e) => {
                return Err(e);
            },
        };
        let subscribe = Subscribe { pid: self.last_pid.next(), topics: topics };
        let pid = subscribe.pid;
        let packet = Packet::Subscribe(subscribe.clone());
        let mut bytes: Vec<u8> = Vec::new();
        match bytes.write_packet(&packet) {
            Ok(_) => {},
            Err(e) => {
                return Err(Error::Mqtt(e));
            },
        }
        assert(bytes@ =~= packet_bytes(packet@));
        self.last_pid = pid;
        push(&mut self.await_suback, subscribe);
        self.outgoing.append(&mut bytes);
        Ok(())
    }

    /// Sends an UNSUBSCRIBE for some topic filters, which waits for
    /// its UNSUBACK.
    pub fn _unsubscribe<U: ToUnSubTopics>(&mut self, unsubs: U) -> (r: Result<()>)
        ensures
            final(self)@ == old(self)@.unsubscribe(unsubs.unsub_topics()).0,
            r == old(self)@.unsubscribe(unsubs.unsub_topics()).1,
            final(self).opts == old(self).opts,
    {
        let topics = match unsubs.to_unsubscribe_topics() {
            Ok(topics) => topics,
            Err(e) => {
                return Err(e);
            },
        };
        let unsubscribe = Unsubscribe { pid: self.last_pid.next(), topics: topics };
        let pid = unsubscribe.pid;
        let packet = Packet::Unsubscribe(unsubscribe.clone());
        let mut bytes: Vec<u8> = Vec::new();
        match bytes.write_packet(&packet) {
            Ok(_) => {},
            Err(e) => {
                return Err(Error::Mqtt(e));
            },
        }
        assert(bytes@ =~= packet_bytes(packet@));
        self.last_pid = pid;
        push(&mut self.await_unsuback, unsubscribe);
        self.outgoing.append(&mut bytes);
        Ok(())
    }

    /// Starts the handshake on a new transport: unless the session is
    /// connected, CONNECT is sent, and the subscriptions are asked for
    /// again once the server accepts.
    pub fn reconnect(&mut self) -> (r: Result<()>)
        requires
            old(self).wf(),
        ensures
            final(self)@ == old(self)@.reconnect().0,
            r == old(self)@.reconnect().1,
            final(self).opts == old(self).opts,
    {
        match self.state {
            ClientState::Connected => {
                return Ok(());
            },
            _ => {},
        }
        match self._handshake() {
            Ok(_) => {},
            Err(e) => {
                return Err(e);
            },
        }
        self.resubscribe = true;
        Ok(())
    }

    /// A session that was never connected. The options must hold a
    /// client identifier.
    pub fn new(opts: ClientOptions, now: u64) -> (client: Client)
        requires
            opts.client_id is Some,
        ensures
            client.wf(),
            client.opts == opts,
            client@ == ClientView::start(
                opts.connect_view(),
                opts.keep_alive,
                opts.reconnect,
                store_view(opts.incomming_store),
                store_view(opts.outgoing_store),
                store_fails(opts.incomming_store),
                store_fails(opts.outgoing_store),
                now,
            ),
    {
        let client = Client {
            state: ClientState::Disconnected,
            opts: opts,
            outgoing: Vec::new(),
            session_present: false,
            last_flush: now,
            last_pid: PacketIdentifier::zero(),
            await_ping: false,
            resubscribe: false,
            incomming_pub: VecDeque::new(),
            incomming_rec: VecDeque::new(),
            incomming_rel: VecDeque::new(),
            outgoing_ack: VecDeque::new(),
            outgoing_rec: VecDeque::new(),
            outgoing_comp: VecDeque::new(),
            await_suback: VecDeque::new(),
            await_unsuback: VecDeque::new(),
            subscriptions: Vec::new(),
        };
        assert(client@ =~= ClientView::start(
            opts.connect_view(),
            opts.keep_alive,
            opts.reconnect,
            store_view(opts.incomming_store),
            store_view(opts.outgoing_store),
            store_fails(opts.incomming_store),
            store_fails(opts.outgoing_store),
            now,
        )) by {
            assert(views(client.incomming_pub@) =~= Seq::<MessageView>::empty());
            assert(views(client.incomming_rec@) =~= Seq::<MessageView>::empty());
            assert(views(client.outgoing_ack@) =~= Seq::<MessageView>::empty());
            assert(views(client.outgoing_rec@) =~= Seq::<MessageView>::empty());
            assert(views(client.await_suback@) =~= Seq::<SubscribeView>::empty());
            assert(views(client.await_unsuback@) =~= Seq::<UnsubscribeView>::empty());
            assert(views(client.subscriptions@) =~= Seq::<SubscriptionView>::empty());
            assert(client.incomming_rel@ =~= Seq::<PacketIdentifier>::empty());
            assert(client.outgoing_comp@ =~= Seq::<PacketIdentifier>::empty());
        }
        client
    }

    /// Sends the CONNECT that the options ask for.
    pub fn _connect(&mut self) -> (r: Result<()>)
        requires
            old(self).wf(),
        ensures
            match r {
                Ok(_) => final(self)@ == old(self)@.write(PacketView::Connect(old(self)@.connect))
                    && old(self)@.handshake().1 is Ok,
                Err(e) => final(self)@ == old(self)@ && old(self)@.handshake().1 == Err::<
                    (),
                    Error,
                >(e),
            },
            final(self).opts == old(self).opts,
    {
        let packet = Packet::Connect(self.opts._generate_connect_packet());
        self._write_packet(&packet)
    }

    /// Starts the handshake: sends CONNECT and waits for CONNACK.
    pub fn _handshake(&mut self) -> (r: Result<()>)
        requires
            old(self).wf(),
        ensures
            final(self)@ == old(self)@.handshake().0,
            r == old(self)@.handshake().1,
            final(self).opts == old(self).opts,
    {
        match self._connect() {
            Ok(_) => {},
            Err(e) => {
                return Err(e);
            },
        }
        self.state = ClientState::Handshake;
        Ok(())
    }
}

impl ClientOptions {
    /// A session with these options whose handshake has started: its
    /// CONNECT is there to be sent. Options without a client
    /// identifier get a generated one.
    pub fn connect(self, now: u64) -> (r: Result<Client>)
        ensures
            match r {
                Ok(client) => {
                    &&& client.wf()
                    &&& client@ == ClientView::start(
                        client.opts.connect_view(),
                        self.keep_alive,
                        self.reconnect,
                        store_view(self.incomming_store),
                        store_view(self.outgoing_store),
                        store_fails(self.incomming_store),
                        store_fails(self.outgoing_store),
                        now,
                    ).handshake().0
                    &&& client@.state == ClientState::Handshake
                    &&& client.opts == (ClientOptions {
                        client_id: client.opts.client_id,
                        ..self
                    })
                    &&& self.client_id is Some ==> client.opts == self
                    &&& self.client_id is None ==> exists|id: u32|
                        client.opts.client_id->Some_0@ == generated_client_id(id)
                    &&& packet_body(PacketView::Connect(client@.connect)).len()
                        <= max_remaining_length()
                },
                Err(e) => {
                    &&& e == Error::Mqtt(MqttError::PayloadTooLong)
                    &&& self.client_id is Some ==> packet_body(
                        PacketView::Connect(self.connect_view()),
                    ).len() > max_remaining_length()
                    &&& self.client_id is None ==> exists|id: u32|
                        packet_body(
                            PacketView::Connect(
                                ConnectView {
                                    client_id: #[trigger] generated_client_id(id),
                                    ..self.connect_view()
                                },
                            ),
                        ).len() > max_remaining_length()
                },
            },
    {
        let mut opts = self;
        if opts.client_id.is_none() {
            opts.generate_client_id();
        }
        let ghost chosen = opts.connect_view();
        proof {
            if self.client_id is None {
                let id = choose|id: u32| opts.client_id->Some_0@ == generated_client_id(id);
                assert(chosen == (ConnectView {
                    client_id: generated_client_id(id),
                    ..self.connect_view()
                }));
            }
        }
        let mut client = Client::new(opts, now);
        match client._handshake() {
            Ok(_) => Ok(client),
            Err(e) => Err(e),
        }
    }
}

/// The operations of a session.
pub trait PubSub {
    /// What the session holds.
    spec fn session(&self) -> ClientView;

    /// Publishes a message to a topic name.
    fn publish<T: ToTopicPath, P: ToPayload>(&mut self, topic: T, payload: P, pubopt: PubOpt) -> (r:
        Result<()>)
        ensures
            done(
                old(self).session(),
                final(self).session(),
                r,
                old(self).session().publish(
                    topic_name_of(topic.parsed()),
                    payload.payload_bytes(),
                    pubopt,
                ),
                old(self).session().publish_may_fail(topic_name_of(topic.parsed()), pubopt),
            ),
    ;

    /// Asks for the messages of some topic filters.
    fn subscribe<S: ToSubTopics>(&mut self, subs: S) -> (r: Result<()>)
        ensures
            final(self).session() == old(self).session().subscribe(subs.sub_topics()).0,
            r == old(self).session().subscribe(subs.sub_topics()).1,
    ;

    /// Gives up some topic filters.
    fn unsubscribe<U: ToUnSubTopics>(&mut self, unsubs: U) -> (r: Result<()>)
        ensures
            final(self).session() == old(self).session().unsubscribe(unsubs.unsub_topics()).0,
            r == old(self).session().unsubscribe(unsubs.unsub_topics()).1,
    ;

    /// Ends the session: what is left to be written to the transport,
    /// with a DISCONNECT at its end.
    fn disconnect(self) -> (r: Result<Vec<u8>>) where Self: Sized
        ensures
            r matches Ok(bytes) && bytes@ == self.session().written + packet_bytes(
                PacketView::Disconnect,
            ),
    ;
}

impl PubSub for Client {
    open spec fn session(&self) -> ClientView {
        self@
    }

    fn publish<T: ToTopicPath, P: ToPayload>(&mut self, topic: T, payload: P, pubopt: PubOpt) -> (r:
        Result<()>)
        ensures
            final(self).wf() == old(self).wf(),
    {
        self._publish(topic, payload, pubopt)
    }

    fn subscribe<S: ToSubTopics>(&mut self, subs: S) -> (r: Result<()>)
        ensures
            final(self).opts == old(self).opts,
    {
        self._subscribe(subs)
    }

    fn unsubscribe<U: ToUnSubTopics>(&mut self, unsubs: U) -> (r: Result<()>)
        ensures
            final(self).opts == old(self).opts,
    {
        self._unsubscribe(unsubs)
    }

    fn disconnect(self) -> (r: Result<Vec<u8>>) {
        let mut client = self;
        client._disconnect();
        Ok(client.outgoing)
    }
}

impl Client {
    /// Sends a DISCONNECT.
    pub fn _disconnect(&mut self)
        ensures
            final(self)@ == old(self)@.write(PacketView::Disconnect),
            final(self).opts == old(self).opts,
    {
        self.write_short(&Packet::Disconnect);
    }
}

} // verus!
