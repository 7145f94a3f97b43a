//! What holds of the session, whatever it is handed.
use vstd::prelude::*;
use crate::mqtt3::mqtt::{Connack, PacketView, SubscribeView};
use crate::mqtt3::msg::MessageView;
use crate::mqtt3::topic::TopicPathView;
use crate::mqtt3::wire::{max_remaining_length, packet_body, packet_bytes, remaining_length_bytes};
use crate::mqtt3::{ConnectReturnCode, PacketIdentifier, QoS};
use super::error::Error;
use super::pubopt::PubOpt;
use super::session::{
    all_in_flight, all_parsed, distinct_filters, granted, has_filter, popped, received_once,
    subs_insert, subs_insert_all, subs_remove, subs_remove_all, subscribe_topics_of, ClientView,
    Delivery, IncomingView,
};
use super::sub::SubscriptionView;
use super::ClientState;

verus! {

/* Packet identifiers */

/// How far `to` lies ahead of `from`, counting modulo 2^16.
pub open spec fn pid_distance(from: PacketIdentifier, to: PacketIdentifier) -> int {
    (to.0 - from.0) % 65536
}

/// Packet identifiers increase: the next one lies one ahead of the
/// last, or two where zero is passed over, counting modulo 2^16; and
/// it is never zero.
pub proof fn lemma_next_pid_increases(pid: PacketIdentifier)
    ensures
        1 <= pid_distance(pid, pid.spec_next()) <= 2,
        pid_distance(pid, pid.spec_next()) == 2 <==> pid.0 == 65535,
        pid.spec_next().0 != 0,
{
}

/// Every packet identifier that a session hands out is the next after
/// the last one it handed out: a publish above tier 0, a subscribe and
/// an unsubscribe that succeed take the next one, and no other
/// operation takes one.
pub proof fn lemma_allocations_are_successive(
    s: ClientView,
    topic: TopicPathView,
    payload: Seq<u8>,
    pubopt: PubOpt,
    topics: Seq<crate::mqtt3::mqtt::SubscribeTopicView>,
    filters: Seq<Seq<char>>,
)
    ensures
        ({
            let (after, r) = s.publish(Ok(topic), payload, pubopt);
            &&& r is Ok && pubopt.spec_qos() != QoS::AtMostOnce ==> after.last_pid
                == s.last_pid.spec_next()
            &&& r is Ok && pubopt.spec_qos() == QoS::AtMostOnce ==> after.last_pid == s.last_pid
            &&& r is Err ==> after.last_pid == s.last_pid
        }),
        ({
            let (after, r) = s.subscribe(topics);
            &&& r is Ok ==> after.last_pid == s.last_pid.spec_next() && after.await_suback.last().pid
                == after.last_pid
            &&& r is Err ==> after.last_pid == s.last_pid
        }),
        ({
            let (after, r) = s.unsubscribe(filters);
            &&& r is Ok ==> after.last_pid == s.last_pid.spec_next()
                && after.await_unsuback.last().pid == after.last_pid
            &&& r is Err ==> after.last_pid == s.last_pid
        }),
{
}

/* Tier 1, outgoing */

/// A publish at tier 1 that succeeds leaves the message at the end of
/// `outgoing_ack`, under the next packet identifier, and in the
/// outgoing store if there is one.
pub proof fn lemma_publish_at_least_once_waits(
    s: ClientView,
    topic: TopicPathView,
    payload: Seq<u8>,
    pubopt: PubOpt,
)
    requires
        pubopt.spec_qos() == QoS::AtLeastOnce,
        s.publish(Ok(topic), payload, pubopt).1 is Ok,
    ensures
        ({
            let after = s.publish(Ok(topic), payload, pubopt).0;
            let m = s.outgoing_message(topic, payload, pubopt);
            &&& m.pid == Some(s.last_pid.spec_next())
            &&& after.outgoing_ack == s.outgoing_ack.push(m)
            &&& s.outgoing_store is Some ==> after.outgoing_store is Some
                && after.outgoing_store->Some_0.contains_key(m.pid->Some_0.0)
                && after.outgoing_store->Some_0[m.pid->Some_0.0] == m
        }),
{
}

/// What waits in `outgoing_ack` stays there, whatever a read gives,
/// but for the first, which leaves when a PUBACK comes while the
/// session is connected.
pub proof fn lemma_outgoing_ack_stays(s: ClientView, incoming: IncomingView)
    ensures
        ({
            let after = s.accept(incoming).0;
            if s.state == ClientState::Connected
                && incoming matches IncomingView::Packet(PacketView::Puback(_)) {
                after.outgoing_ack == popped(s.outgoing_ack)
            } else {
                after.outgoing_ack == s.outgoing_ack
            }
        }),
{
}

/// A PUBACK for the first of `outgoing_ack` takes it off the queue and
/// out of the outgoing store, and no more.
pub proof fn lemma_puback_releases(s: ClientView, pid: PacketIdentifier)
    requires
        s.state == ClientState::Connected,
        s.outgoing_ack.len() > 0,
        s.outgoing_ack[0].pid == Some(pid),
        s.outgoing_ack[0].qos == QoS::AtLeastOnce,
    ensures
        ({
            let (after, r) = s.accept(IncomingView::Packet(PacketView::Puback(pid)));
            &&& r == Ok::<Option<MessageView>, Error>(None)
            &&& after.outgoing_ack == s.outgoing_ack.drop_first()
            &&& after.state == ClientState::Connected
        }),
{
}

/// Giving up the transport and starting the handshake on a new one
/// keep the queues of messages, the stores and the subscriptions.
pub proof fn lemma_reconnect_preserves(s: ClientView)
    ensures
        ({
            let after = s.unbind().reconnect().0;
            &&& after.outgoing_ack == s.outgoing_ack
            &&& after.outgoing_rec == s.outgoing_rec
            &&& after.outgoing_comp == s.outgoing_comp
            &&& after.incomming_rec == s.incomming_rec
            &&& after.incomming_rel == s.incomming_rel
            &&& after.outgoing_store == s.outgoing_store
            &&& after.incomming_store == s.incomming_store
            &&& after.subscriptions == s.subscriptions
            &&& after.last_pid == s.last_pid
        }),
{
}

/* Tier 2, incoming */

/// The session after the same tier-2 message came in `n` times.
pub open spec fn received(s: ClientView, m: MessageView, n: nat) -> ClientView
    decreases n,
{
    if n == 0 {
        s
    } else {
        received(s, m, (n - 1) as nat).on_message(m).0
    }
}

/// A tier-2 message that comes in any number of times, once or more,
/// stands once in `incomming_rec` and in the incoming store, and each
/// time it came a PUBREC was sent and nothing was delivered.
pub proof fn lemma_duplicates_are_received_once(s: ClientView, m: MessageView, n: nat)
    requires
        n >= 1,
        m.qos == QoS::ExactlyOnce,
        m.pid is Some,
        s.incomming_store is Some,
        !s.incomming_store->Some_0.contains_key(m.pid->Some_0.0),
    ensures
        ({
            let after = received(s, m, n);
            &&& after.incomming_rec == s.incomming_rec.push(m)
            &&& after.incomming_store == Some(s.incomming_store->Some_0.insert(m.pid->Some_0.0, m))
            &&& after.incomming_rel == s.incomming_rel
            &&& after.state == s.state
            &&& received(s, m, (n - 1) as nat).on_message(m).1 == Ok::<
                Option<MessageView>,
                Error,
            >(None)
        }),
    decreases n,
{
    if n > 1 {
        lemma_duplicates_are_received_once(s, m, (n - 1) as nat);
    } else {
        assert(received(s, m, 0) == s);
    }
}

/// Exactly-once delivery: a tier-2 message that came in once or more
/// is delivered by the PUBREL that follows, and by none after it. The
/// first PUBREL delivers the message and takes it off `incomming_rec`;
/// a second PUBREL for the same packet identifier finds nothing that
/// waits under it, and delivers nothing.
pub proof fn lemma_exactly_once(s: ClientView, m: MessageView, n: nat)
    requires
        n >= 1,
        s.state == ClientState::Connected,
        s.incomming_rec.len() == 0,
        m.qos == QoS::ExactlyOnce,
        m.pid is Some,
        s.incomming_store is Some,
        !s.incomming_store->Some_0.contains_key(m.pid->Some_0.0),
    ensures
        ({
            let pid = m.pid->Some_0;
            let (first, delivered) = received(s, m, n).on_packet(PacketView::Pubrel(pid));
            let (second, again) = first.on_packet(PacketView::Pubrel(pid));
            &&& delivered == Ok::<Option<MessageView>, Error>(Some(m))
            &&& first.incomming_rec.len() == 0
            &&& first.incomming_rel == s.incomming_rel.push(pid)
            &&& again == Err::<Option<MessageView>, Error>(Error::UnhandledPubrel(pid))
        }),
{
    lemma_duplicates_are_received_once(s, m, n);
    let after = received(s, m, n);
    assert(after.incomming_rec[0] == m);
    assert(after.incomming_rec.drop_first() =~= Seq::<MessageView>::empty());
}

/// Exactly-once delivery, at all times: a PUBREL delivers a message
/// only if it is the first that waits in `incomming_rec`, under the
/// packet identifier of the PUBREL; it delivers that message, as the
/// store kept it, and takes it off the queue. After that nothing waits
/// in the queue under that packet identifier, so that a second PUBREL
/// delivers nothing; and a PUBLISH that comes in again under it does
/// not put it back, for as long as the application has not completed
/// it.
pub proof fn lemma_delivered_once(s: ClientView, pid: PacketIdentifier, again: MessageView)
    requires
        s.inv(),
        s.state == ClientState::Connected,
        again.qos == QoS::ExactlyOnce,
        again.pid == Some(pid),
    ensures
        ({
            let (after, delivered) = s.on_packet(PacketView::Pubrel(pid));
            &&& delivered matches Ok(Some(m)) ==> {
                &&& s.incomming_rec.len() > 0
                &&& m == s.incomming_rec[0]
                &&& m.pid == Some(pid)
                &&& after.incomming_rec == s.incomming_rec.drop_first()
                &&& forall|i: int|
                    0 <= i < after.incomming_rec.len() ==> (#[trigger] after.incomming_rec[i]).pid
                        != Some(pid)
                &&& after.on_packet(PacketView::Pubrel(pid)).1 == Err::<
                    Option<MessageView>,
                    Error,
                >(Error::UnhandledPubrel(pid))
                &&& after.on_message(again).1 == Ok::<Option<MessageView>, Error>(None)
                &&& after.on_message(again).0.incomming_rec == after.incomming_rec
            }
            &&& s.incomming_rec.len() > 0 && s.incomming_rec[0].pid == Some(pid) ==> delivered
                == Ok::<Option<MessageView>, Error>(Some(s.incomming_rec[0]))
        }),
{
    let (after, delivered) = s.on_packet(PacketView::Pubrel(pid));
    if s.incomming_rec.len() > 0 && s.incomming_rec[0].pid == Some(pid) {
        let rest = s.incomming_rec.drop_first();
        assert forall|i: int| 0 <= i < rest.len() implies (#[trigger] rest[i]).pid != Some(pid) by {
            assert(rest[i] == s.incomming_rec[i + 1]);
        }
        if rest.len() > 0 {
            assert(rest[0].pid != Some(pid));
        }
    }
}

/// The tier-2 messages that came in stay received once when one more
/// comes in.
proof fn lemma_received_once_message(s: ClientView, m: MessageView)
    requires
        received_once(s.incomming_rec, s.incomming_rel, s.incomming_store),
    ensures
        received_once(
            s.on_message(m).0.incomming_rec,
            s.on_message(m).0.incomming_rel,
            s.on_message(m).0.incomming_store,
        ),
{
    let after = s.on_message(m).0;
    if m.qos == QoS::ExactlyOnce && m.pid is Some && s.incomming_store is Some {
        let pid = m.pid->Some_0;
        let kept = s.incomming_store->Some_0;
        if !kept.contains_key(pid.0) {
            let rec = after.incomming_rec;
            assert(rec == s.incomming_rec.push(m));
            assert forall|i: int| 0 <= i < rec.len() implies (#[trigger] rec[i]).pid is Some
                && after.incomming_store->Some_0.contains_key(rec[i].pid->Some_0.0)
                && after.incomming_store->Some_0[rec[i].pid->Some_0.0] == rec[i] by {
                if i < s.incomming_rec.len() {
                    assert(rec[i] == s.incomming_rec[i]);
                }
            }
            assert forall|i: int, j: int| 0 <= i < j < rec.len() implies (#[trigger] rec[i]).pid
                != (#[trigger] rec[j]).pid by {
                assert(rec[i] == s.incomming_rec[i]);
                if j < s.incomming_rec.len() {
                    assert(rec[j] == s.incomming_rec[j]);
                }
            }
            assert forall|i: int, j: int|
                0 <= i < rec.len() && 0 <= j < after.incomming_rel.len() implies (
            #[trigger] rec[i]).pid != Some(#[trigger] after.incomming_rel[j]) by {
                if i < s.incomming_rec.len() {
                    assert(rec[i] == s.incomming_rec[i]);
                }
            }
        }
    }
}

/// The tier-2 messages that came in stay received once when a PUBREL
/// comes in.
proof fn lemma_received_once_pubrel(s: ClientView, pid: PacketIdentifier)
    requires
        received_once(s.incomming_rec, s.incomming_rel, s.incomming_store),
    ensures
        received_once(
            s.on_pubrel(pid).0.incomming_rec,
            s.on_pubrel(pid).0.incomming_rel,
            s.on_pubrel(pid).0.incomming_store,
        ),
{
    let after = s.on_pubrel(pid).0;
    if s.incomming_rec.len() > 0 {
        let rest = s.incomming_rec.drop_first();
        assert forall|i: int| 0 <= i < rest.len() implies #[trigger] rest[i] == s.incomming_rec[i
            + 1] by {}
        if after.incomming_rec == rest {
            let rec = after.incomming_rec;
            let rel = after.incomming_rel;
            assert forall|i: int, j: int| 0 <= i < j < rec.len() implies (#[trigger] rec[i]).pid
                != (#[trigger] rec[j]).pid by {
                assert(rec[i] == s.incomming_rec[i + 1]);
                assert(rec[j] == s.incomming_rec[j + 1]);
            }
            assert forall|i: int| 0 <= i < rec.len() implies (#[trigger] rec[i]).pid is Some
                && after.incomming_store->Some_0.contains_key(rec[i].pid->Some_0.0)
                && after.incomming_store->Some_0[rec[i].pid->Some_0.0] == rec[i] by {
                assert(rec[i] == s.incomming_rec[i + 1]);
            }
            assert forall|i: int, j: int| 0 <= i < j < rel.len() implies #[trigger] rel[i]
                != #[trigger] rel[j] by {
                assert(rel[i] == s.incomming_rel[i]);
                if j < s.incomming_rel.len() {
                    assert(rel[j] == s.incomming_rel[j]);
                } else {
                    assert(s.incomming_rec[0].pid != Some(s.incomming_rel[i]));
                }
            }
            assert forall|i: int, j: int| 0 <= i < rec.len() && 0 <= j < rel.len() implies (
            #[trigger] rec[i]).pid != Some(#[trigger] rel[j]) by {
                assert(rec[i] == s.incomming_rec[i + 1]);
                if j < s.incomming_rel.len() {
                    assert(rel[j] == s.incomming_rel[j]);
                } else {
                    assert(s.incomming_rec[0].pid != s.incomming_rec[i + 1].pid);
                }
            }
            assert forall|j: int| 0 <= j < rel.len() implies after.incomming_store->Some_0.contains_key(
                (#[trigger] rel[j]).0,
            ) by {
                if j < s.incomming_rel.len() {
                    assert(rel[j] == s.incomming_rel[j]);
                } else {
                    assert(s.incomming_rec[0].pid is Some);
                }
            }
        }
    }
}

/// The tier-2 messages that came in stay received once when the
/// application completes one.
proof fn lemma_received_once_complete(s: ClientView, pid: PacketIdentifier)
    requires
        received_once(s.incomming_rec, s.incomming_rel, s.incomming_store),
    ensures
        received_once(
            s.complete(pid).0.incomming_rec,
            s.complete(pid).0.incomming_rel,
            s.complete(pid).0.incomming_store,
        ),
{
    let after = s.complete(pid).0;
    if s.incomming_rel.len() > 0 && s.incomming_rel.last() == pid && s.incomming_store is Some {
        let rec = after.incomming_rec;
        let rel = after.incomming_rel;
        let last = s.incomming_rel.len() - 1;
        assert(s.incomming_rel[last] == pid);
        assert forall|j: int| 0 <= j < rel.len() implies #[trigger] rel[j] == s.incomming_rel[j] by {}
        assert forall|i: int| 0 <= i < rec.len() implies (#[trigger] rec[i]).pid is Some
            && after.incomming_store->Some_0.contains_key(rec[i].pid->Some_0.0)
            && after.incomming_store->Some_0[rec[i].pid->Some_0.0] == rec[i] by {
            assert(rec[i].pid != Some(s.incomming_rel[last]));
        }
        assert forall|j: int| 0 <= j < rel.len() implies after.incomming_store->Some_0.contains_key(
            (#[trigger] rel[j]).0,
        ) by {
            assert(rel[j] == s.incomming_rel[j]);
            assert(s.incomming_rel[j] != s.incomming_rel[last]);
        }
        assert forall|i: int, j: int| 0 <= i < j < rel.len() implies #[trigger] rel[i]
            != #[trigger] rel[j] by {
            assert(rel[i] == s.incomming_rel[i]);
            assert(rel[j] == s.incomming_rel[j]);
        }
        assert forall|i: int, j: int| 0 <= i < rec.len() && 0 <= j < rel.len() implies (
        #[trigger] rec[i]).pid != Some(#[trigger] rel[j]) by {
            assert(rel[j] == s.incomming_rel[j]);
        }
    }
}

/* Subscriptions */

/// Inserting a subscription puts it in the place of the one for the
/// same filter, or behind all where there is none: the filters of the
/// others, their subscriptions and their order stay.
pub proof fn lemma_subs_insert(subs: Seq<SubscriptionView>, sub: SubscriptionView)
    ensures
        ({
            let after = subs_insert(subs, sub);
            &&& has_filter(after, sub.topic_path.path)
            &&& if has_filter(subs, sub.topic_path.path) {
                after.len() == subs.len()
            } else {
                after == subs.push(sub)
            }
            &&& forall|i: int|
                0 <= i < subs.len() ==> (#[trigger] after[i]).topic_path.path
                    == subs[i].topic_path.path && (after[i] == subs[i] || after[i] == sub)
            &&& distinct_filters(subs) ==> distinct_filters(after)
        }),
    decreases subs.len(),
{
    let after = subs_insert(subs, sub);
    let path = sub.topic_path.path;
    if subs.len() == 0 {
        assert(after[0] == sub);
        assert(after =~= subs.push(sub));
    } else if subs[0].topic_path.path == path {
        assert(after[0] == sub);
        assert(subs[0].topic_path.path == path);
        assert forall|i: int| 0 <= i < subs.len() implies (#[trigger] after[i]).topic_path.path
            == subs[i].topic_path.path && (after[i] == subs[i] || after[i] == sub) by {
            if i > 0 {
                assert(after[i] == subs.drop_first()[i - 1]);
            }
        }
    } else {
        let rest = subs.drop_first();
        let inner = subs_insert(rest, sub);
        lemma_subs_insert(rest, sub);
        assert(after == seq![subs[0]] + inner);
        let k = choose|k: int| 0 <= k < inner.len() && (#[trigger] inner[k]).topic_path.path == path;
        assert(after[k + 1] == inner[k]);
        if has_filter(subs, path) {
            let j = choose|j: int| 0 <= j < subs.len() && (#[trigger] subs[j]).topic_path.path == path;
            assert(rest[j - 1] == subs[j]);
            assert(has_filter(rest, path));
        } else {
            if has_filter(rest, path) {
                let j = choose|j: int|
                    0 <= j < rest.len() && (#[trigger] rest[j]).topic_path.path == path;
                assert(subs[j + 1] == rest[j]);
            }
            assert(after =~= subs.push(sub));
        }
        assert forall|i: int| 0 <= i < subs.len() implies (#[trigger] after[i]).topic_path.path
            == subs[i].topic_path.path && (after[i] == subs[i] || after[i] == sub) by {
            if i > 0 {
                assert(after[i] == inner[i - 1]);
                assert(rest[i - 1] == subs[i]);
            }
        }
        if distinct_filters(subs) {
            assert(distinct_filters(rest)) by {
                assert forall|i: int, j: int| 0 <= i < j < rest.len() implies (
                #[trigger] rest[i]).topic_path.path != (#[trigger] rest[j]).topic_path.path by {
                    assert(rest[i] == subs[i + 1]);
                    assert(rest[j] == subs[j + 1]);
                }
            }
            assert forall|i: int, j: int| 0 <= i < j < after.len() implies (
            #[trigger] after[i]).topic_path.path != (#[trigger] after[j]).topic_path.path by {
                assert(after[j] == inner[j - 1]);
                if i > 0 {
                    assert(after[i] == inner[i - 1]);
                } else {
                    // the first is not for `path`, and not for a filter of the rest
                    if j - 1 < rest.len() {
                        assert(inner[j - 1].topic_path.path == rest[j - 1].topic_path.path);
                        assert(rest[j - 1] == subs[j]);
                    } else {
                        assert(inner == rest.push(sub));
                    }
                }
            }
        }
    }
}

/// Removing a filter leaves no subscription for it, and leaves the
/// others, each once where each stood once.
pub proof fn lemma_subs_remove(subs: Seq<SubscriptionView>, path: Seq<char>)
    ensures
        ({
            let after = subs_remove(subs, path);
            &&& !has_filter(after, path)
            &&& after.len() <= subs.len()
            &&& forall|i: int|
                0 <= i < after.len() ==> has_filter(subs, (#[trigger] after[i]).topic_path.path)
            &&& forall|j: int|
                0 <= j < subs.len() && (#[trigger] subs[j]).topic_path.path != path
                    ==> has_filter(after, subs[j].topic_path.path)
            &&& distinct_filters(subs) ==> distinct_filters(after)
        }),
    decreases subs.len(),
{
    let after = subs_remove(subs, path);
    if subs.len() > 0 {
        let front = subs.drop_last();
        let inner = subs_remove(front, path);
        lemma_subs_remove(front, path);
        assert forall|i: int| 0 <= i < inner.len() implies has_filter(
            subs,
            (#[trigger] inner[i]).topic_path.path,
        ) by {
            let k = choose|k: int|
                0 <= k < front.len() && (#[trigger] front[k]).topic_path.path
                    == inner[i].topic_path.path;
            assert(subs[k] == front[k]);
        }
        assert forall|i: int| 0 <= i < after.len() implies has_filter(
            subs,
            (#[trigger] after[i]).topic_path.path,
        ) by {
            if i < inner.len() {
                assert(after[i] == inner[i]);
            } else {
                assert(after[i] == subs.last());
                assert(subs[subs.len() - 1] == subs.last());
            }
        }
        assert forall|j: int|
            0 <= j < subs.len() && (#[trigger] subs[j]).topic_path.path != path implies has_filter(
            after,
            subs[j].topic_path.path,
        ) by {
            if j < front.len() {
                assert(front[j] == subs[j]);
                let k = choose|k: int|
                    0 <= k < inner.len() && (#[trigger] inner[k]).topic_path.path
                        == subs[j].topic_path.path;
                assert(after[k] == inner[k]);
            } else {
                assert(after[after.len() - 1] == subs.last());
            }
        }
        if has_filter(after, path) {
            let k = choose|k: int| 0 <= k < after.len() && (#[trigger] after[k]).topic_path.path == path;
            if k < inner.len() {
                assert(after[k] == inner[k]);
            }
        }
        if distinct_filters(subs) {
            assert(distinct_filters(front)) by {
                assert forall|i: int, j: int| 0 <= i < j < front.len() implies (
                #[trigger] front[i]).topic_path.path != (#[trigger] front[j]).topic_path.path by {
                    assert(front[i] == subs[i]);
                    assert(front[j] == subs[j]);
                }
            }
            assert forall|i: int, j: int| 0 <= i < j < after.len() implies (
            #[trigger] after[i]).topic_path.path != (#[trigger] after[j]).topic_path.path by {
                assert(after[i] == inner[i]);
                if j < inner.len() {
                    assert(after[j] == inner[j]);
                } else {
                    assert(after[j] == subs.last());
                    let k = choose|k: int|
                        0 <= k < front.len() && (#[trigger] front[k]).topic_path.path
                            == inner[i].topic_path.path;
                    assert(front[k] == subs[k]);
                    assert(subs[subs.len() - 1] == subs.last());
                }
            }
        }
    }
}

/// An inserted subscription that holds the topic path of its filter
/// leaves all doing so.
pub proof fn lemma_subs_insert_parsed(subs: Seq<SubscriptionView>, sub: SubscriptionView)
    requires
        all_parsed(subs),
        sub.topic_path.wf(),
    ensures
        all_parsed(subs_insert(subs, sub)),
{
    lemma_subs_insert(subs, sub);
    let after = subs_insert(subs, sub);
    assert forall|i: int| 0 <= i < after.len() implies (#[trigger] after[i]).topic_path.wf() by {
        if i < subs.len() {
            assert(after[i] == subs[i] || after[i] == sub);
        } else {
            assert(after == subs.push(sub));
        }
    }
}

/// The subscriptions that are left when a filter is removed are among
/// those that were there.
pub proof fn lemma_subs_remove_parsed(subs: Seq<SubscriptionView>, path: Seq<char>)
    requires
        all_parsed(subs),
    ensures
        all_parsed(subs_remove(subs, path)),
    decreases subs.len(),
{
    if subs.len() > 0 {
        let front = subs.drop_last();
        assert forall|i: int| 0 <= i < front.len() implies (#[trigger] front[i]).topic_path.wf() by {
            assert(front[i] == subs[i]);
        }
        lemma_subs_remove_parsed(front, path);
        let inner = subs_remove(front, path);
        let after = subs_remove(subs, path);
        assert forall|i: int| 0 <= i < after.len() implies (#[trigger] after[i]).topic_path.wf() by {
            if i < inner.len() {
                assert(after[i] == inner[i]);
            } else {
                assert(after[i] == subs[subs.len() - 1]);
            }
        }
    }
}

/// The subscriptions that a SUBACK grants hold the topic paths of
/// their filters.
pub proof fn lemma_granted_parsed(
    pid: PacketIdentifier,
    topics: Seq<crate::mqtt3::mqtt::SubscribeTopicView>,
    codes: Seq<crate::mqtt3::mqtt::SubscribeReturnCodes>,
)
    ensures
        granted(pid, topics, codes) matches Ok(subs) ==> all_parsed(subs),
    decreases topics.len(),
{
    if topics.len() > 0 && codes.len() > 0 {
        lemma_granted_parsed(pid, topics.drop_last(), codes.drop_last());
        if let Ok(subs) = granted(pid, topics, codes) {
            let before = granted(pid, topics.drop_last(), codes.drop_last())->Ok_0;
            assert forall|i: int| 0 <= i < subs.len() implies (#[trigger] subs[i]).topic_path.wf() by {
                if i < before.len() {
                    assert(subs[i] == before[i]);
                }
            }
        }
    }
}

/// Subscriptions that are inserted one after the other keep what
/// holds of subscriptions.
pub proof fn lemma_subs_insert_all(subs: Seq<SubscriptionView>, items: Seq<SubscriptionView>)
    requires
        distinct_filters(subs),
        all_parsed(subs),
        all_parsed(items),
    ensures
        distinct_filters(subs_insert_all(subs, items)),
        all_parsed(subs_insert_all(subs, items)),
    decreases items.len(),
{
    if items.len() > 0 {
        let front = items.drop_last();
        assert forall|i: int| 0 <= i < front.len() implies (#[trigger] front[i]).topic_path.wf() by {
            assert(front[i] == items[i]);
        }
        lemma_subs_insert_all(subs, front);
        assert(items.last() == items[items.len() - 1]);
        lemma_subs_insert(subs_insert_all(subs, front), items.last());
        lemma_subs_insert_parsed(subs_insert_all(subs, front), items.last());
    }
}

/// Filters that are removed one after the other keep what holds of
/// subscriptions.
pub proof fn lemma_subs_remove_all(subs: Seq<SubscriptionView>, paths: Seq<Seq<char>>)
    requires
        distinct_filters(subs),
        all_parsed(subs),
    ensures
        distinct_filters(subs_remove_all(subs, paths)),
        all_parsed(subs_remove_all(subs, paths)),
    decreases paths.len(),
{
    if paths.len() > 0 {
        lemma_subs_remove_all(subs, paths.drop_last());
        lemma_subs_remove(subs_remove_all(subs, paths.drop_last()), paths.last());
        lemma_subs_remove_parsed(subs_remove_all(subs, paths.drop_last()), paths.last());
    }
}

/// A queue of a tier without its first message is a queue of that
/// tier.
proof fn lemma_popped_in_flight(queue: Seq<MessageView>, qos: QoS)
    requires
        all_in_flight(queue, qos),
    ensures
        all_in_flight(popped(queue), qos),
{
    if queue.len() > 0 {
        let rest = queue.drop_first();
        assert forall|i: int| 0 <= i < rest.len() implies (#[trigger] rest[i]).qos == qos
            && rest[i].pid is Some by {
            assert(rest[i] == queue[i + 1]);
        }
    }
}

/// A queue of a tier with one more message of that tier is a queue of
/// that tier.
proof fn lemma_pushed_in_flight(queue: Seq<MessageView>, qos: QoS, m: MessageView)
    requires
        all_in_flight(queue, qos),
        m.qos == qos,
        m.pid is Some,
    ensures
        all_in_flight(queue.push(m), qos),
{
    let more = queue.push(m);
    assert forall|i: int| 0 <= i < more.len() implies (#[trigger] more[i]).qos == qos
        && more[i].pid is Some by {
        if i < queue.len() {
            assert(more[i] == queue[i]);
        }
    }
}

/// The invariant of the session holds after a packet came in while
/// connected.
proof fn lemma_connected_keeps_invariant(s: ClientView, p: PacketView)
    requires
        s.inv(),
    ensures
        s.on_connected(p).0.inv(),
{
    match p {
        PacketView::Publish(publish) => {
            if let Ok(m) = MessageView::from_pub(publish) {
                lemma_received_once_message(s, m);
                if m.pid is Some && m.qos == QoS::AtLeastOnce {
                    lemma_pushed_in_flight(s.incomming_pub, QoS::AtLeastOnce, m);
                    lemma_popped_in_flight(s.incomming_pub.push(m), QoS::AtLeastOnce);
                }
                if m.pid is Some && m.qos == QoS::ExactlyOnce {
                    lemma_pushed_in_flight(s.incomming_rec, QoS::ExactlyOnce, m);
                }
            }
        },
        PacketView::Puback(_) => {
            lemma_popped_in_flight(s.outgoing_ack, QoS::AtLeastOnce);
        },
        PacketView::Pubrec(_) => {
            lemma_popped_in_flight(s.outgoing_rec, QoS::ExactlyOnce);
        },
        PacketView::Pubrel(pid) => {
            lemma_popped_in_flight(s.incomming_rec, QoS::ExactlyOnce);
            lemma_received_once_pubrel(s, pid);
        },
        PacketView::Suback(suback) => {
            if s.await_suback.len() > 0 {
                let asked = s.await_suback[0];
                lemma_granted_parsed(suback.pid, asked.topics, suback.return_codes);
                if let Ok(subs) = granted(suback.pid, asked.topics, suback.return_codes) {
                    lemma_subs_insert_all(s.subscriptions, subs);
                }
            }
        },
        PacketView::Unsuback(_) => {
            if s.await_unsuback.len() > 0 {
                lemma_subs_remove_all(s.subscriptions, s.await_unsuback[0].topics);
            }
        },
        _ => {},
    }
}

/// The invariant of the session holds at all times: a session of which
/// it holds is one of which it holds after whatever a read gives.
pub proof fn lemma_accept_keeps_invariant(s: ClientView, incoming: IncomingView)
    requires
        s.inv(),
    ensures
        s.accept(incoming).0.inv(),
{
    if let IncomingView::Packet(p) = incoming {
        lemma_connected_keeps_invariant(s, p);
    }
}

/// The invariant of the session holds at all times: it holds of a
/// session that was never connected, and a session of which it holds
/// is one of which it holds after every operation of the application.
pub proof fn lemma_operations_keep_invariant(
    s: ClientView,
    topic: TopicPathView,
    payload: Seq<u8>,
    pubopt: PubOpt,
    topics: Seq<crate::mqtt3::mqtt::SubscribeTopicView>,
    filters: Seq<Seq<char>>,
    pid: PacketIdentifier,
    accepted: Delivery,
    now: u64,
)
    requires
        s.inv(),
    ensures
        ClientView::start(
            s.connect,
            s.keep_alive,
            s.reconnect,
            s.incomming_store,
            s.outgoing_store,
            s.incomming_fails,
            s.outgoing_fails,
            now,
        ).inv(),
        s.publish(Ok(topic), payload, pubopt).0.inv(),
        s.subscribe(topics).0.inv(),
        s.unsubscribe(filters).0.inv(),
        s.complete(pid).0.inv(),
        s.ping().inv(),
        s.unbind().inv(),
        s.handshake().0.inv(),
        s.reconnect().0.inv(),
        s.after_accept(accepted).0.inv(),
{
    lemma_received_once_complete(s, pid);
    let m = s.outgoing_message(topic, payload, pubopt);
    if m.qos == QoS::AtLeastOnce {
        lemma_pushed_in_flight(s.outgoing_ack, QoS::AtLeastOnce, m);
    }
    if m.qos == QoS::ExactlyOnce {
        lemma_pushed_in_flight(s.outgoing_rec, QoS::ExactlyOnce, m);
    }
}

/// No operation of the application changes the subscriptions: they
/// change with a SUBACK or an UNSUBACK alone.
pub proof fn lemma_operations_keep_subscriptions(
    s: ClientView,
    topic: TopicPathView,
    payload: Seq<u8>,
    pubopt: PubOpt,
    topics: Seq<crate::mqtt3::mqtt::SubscribeTopicView>,
    filters: Seq<Seq<char>>,
    pid: PacketIdentifier,
    accepted: Delivery,
)
    ensures
        s.publish(Ok(topic), payload, pubopt).0.subscriptions == s.subscriptions,
        s.subscribe(topics).0.subscriptions == s.subscriptions,
        s.unsubscribe(filters).0.subscriptions == s.subscriptions,
        s.complete(pid).0.subscriptions == s.subscriptions,
        s.ping().subscriptions == s.subscriptions,
        s.unbind().subscriptions == s.subscriptions,
        s.reconnect().0.subscriptions == s.subscriptions,
        s.after_accept(accepted).0.subscriptions == s.subscriptions,
{
}

/// Resubscription on reconnect: after the transport was given up and
/// the handshake started on a new one, the CONNACK that accepts makes
/// the session send one SUBSCRIBE, for exactly the filters that the
/// subscriptions held when the transport was given up, in their
/// order and with their granted tiers, which then waits for its
/// SUBACK alone.
pub proof fn lemma_resubscribe_on_reconnect(s: ClientView, session_present: bool)
    requires
        s.unbind().reconnect().1 is Ok,
    ensures
        ({
            let lost = s.unbind();
            let shaking = lost.reconnect().0;
            let accepted = PacketView::Connack(
                Connack { session_present: session_present, code: ConnectReturnCode::Accepted },
            );
            let (connected, r) = shaking.on_packet(accepted);
            let subscribe = SubscribeView {
                pid: s.last_pid.spec_next(),
                topics: subscribe_topics_of(s.subscriptions),
            };
            &&& lost.subscriptions == s.subscriptions
            &&& shaking.state == ClientState::Handshake
            &&& shaking.await_suback.len() == 0
            &&& r == Ok::<Option<MessageView>, Error>(None)
            &&& connected.state == ClientState::Connected
            &&& connected.subscriptions == s.subscriptions
            &&& !connected.resubscribe
            &&& subscribe.topics.len() == s.subscriptions.len()
            &&& forall|i: int|
                0 <= i < s.subscriptions.len() ==> (#[trigger] subscribe.topics[i]).topic_path
                    == s.subscriptions[i].topic_path.path && subscribe.topics[i].qos
                    == s.subscriptions[i].qos
            &&& packet_body(PacketView::Subscribe(subscribe)).len() <= max_remaining_length()
                ==> connected.written == shaking.written + packet_bytes(
                PacketView::Subscribe(subscribe),
            ) && connected.await_suback == seq![subscribe]
        }),
{
    let lost = s.unbind();
    let shaking = lost.reconnect().0;
    let subscribe = SubscribeView {
        pid: s.last_pid.spec_next(),
        topics: subscribe_topics_of(s.subscriptions),
    };
    assert(shaking.await_suback.push(subscribe) =~= seq![subscribe]);
}

/* Keep-alive */

/// The bytes of a PINGREQ.
pub proof fn lemma_pingreq_bytes()
    ensures
        packet_bytes(PacketView::Pingreq) == seq![0xC0u8, 0x00u8],
{
    assert(remaining_length_bytes(0) =~= seq![0u8]);
    assert(packet_bytes(PacketView::Pingreq) =~= seq![0xC0u8, 0x00u8]);
}

/// Keep-alive: once the keep-alive time has passed since the last
/// flush, the read of a connected session times out. On that timeout a
/// PINGREQ is sent and waits for its PINGRESP; and if one waits
/// already, the transport is given up. A PINGRESP ends the wait.
pub proof fn lemma_keep_alive(s: ClientView, now: u64)
    requires
        s.state == ClientState::Connected,
        s.keep_alive is Some,
        now >= s.last_flush,
        now - s.last_flush >= s.keep_alive->Some_0 * 1000,
    ensures
        s.read_timeout(now) == Err::<Option<u64>, Error>(Error::Timeout),
        ({
            let (after, returned) = s.after_accept(Err(Error::Timeout));
            &&& returned is None
            &&& !s.await_ping ==> after.await_ping && after.state == ClientState::Connected
                && after.written == s.written + seq![0xC0u8, 0x00u8]
            &&& s.await_ping ==> after == s.unbind() && after.state == ClientState::Disconnected
        }),
        !s.on_packet(PacketView::Pingresp).0.await_ping,
{
    lemma_pingreq_bytes();
}

} // verus!
