//! What holds of the wire format: a well-formed packet that is written
//! and read again is the packet that was written.
use vstd::prelude::*;
use vstd::utf8::*;
use super::error::Error;
use super::mqtt::{
    Connack, ConnectView, PacketView, PublishView, SubackView, SubscribeReturnCodes,
    SubscribeTopicView, SubscribeView, UnsubscribeView,
};
use super::wire::{
    bit, connack_body, connect_body, connect_flags, connect_flags_malformed, connect_head_bytes,
    connect_tail_bytes, first_byte, flag_bits,
    max_remaining_length, opt_string_bytes, packet_body, packet_bytes, parse_body, parse_connack,
    parse_connect, parse_connect_head, parse_connect_tail, parse_fixed, parse_opt_string,
    parse_packet, parse_pid, parse_publish, parse_remaining_length, parse_return_codes,
    parse_string, parse_strings, parse_suback, parse_subscribe, parse_subscribe_topic,
    parse_subscribe_topics, parse_u16, parse_unsubscribe, parse_will, publish_body,
    publish_pid_bytes, remaining_length_bytes, return_code_of, return_code_valid,
    return_codes_bytes, string_bytes, strings_bytes, suback_body, subscribe_body,
    subscribe_topics_bytes, u16_bytes, unsubscribe_body, will_bytes,
};
use super::{
    lemma_protocol_new_name_level, LastWillView, PacketIdentifier, PacketType, Protocol, QoS,
};

verus! {

/* Well-formed packets */

/// The UTF-8 form of the string fits a 16-bit length.
pub open spec fn string_fits(s: Seq<char>) -> bool {
    encode_utf8(s).len() <= 65535
}

pub open spec fn opt_string_fits(s: Option<Seq<char>>) -> bool {
    s is Some ==> string_fits(s->Some_0)
}

/// A CONNECT that can be told from its bytes: a standard protocol,
/// strings that fit their length prefix, no password without a
/// username.
pub open spec fn connect_well_formed(c: ConnectView) -> bool {
    &&& c.protocol.is_standard()
    &&& string_fits(c.client_id)
    &&& c.last_will is Some ==> string_fits(c.last_will->Some_0.topic) && string_fits(
        c.last_will->Some_0.message,
    )
    &&& opt_string_fits(c.username)
    &&& opt_string_fits(c.password)
    &&& c.password is Some ==> c.username is Some
}

/// A PUBLISH that can be told from its bytes: a topic name that fits
/// its length prefix, and a packet identifier exactly with a tier
/// above 0.
pub open spec fn publish_well_formed(p: PublishView) -> bool {
    &&& string_fits(p.topic_name)
    &&& p.pid is Some <==> p.qos != QoS::AtMostOnce
}

pub open spec fn subscribe_well_formed(s: SubscribeView) -> bool {
    forall|i: int| 0 <= i < s.topics.len() ==> string_fits(#[trigger] s.topics[i].topic_path)
}

pub open spec fn unsubscribe_well_formed(u: UnsubscribeView) -> bool {
    forall|i: int| 0 <= i < u.topics.len() ==> string_fits(#[trigger] u.topics[i])
}

/// A packet that can be told from its bytes: its body fits the
/// remaining-length field, and its fields fit theirs.
pub open spec fn well_formed(p: PacketView) -> bool {
    &&& packet_body(p).len() <= max_remaining_length()
    &&& match p {
        PacketView::Connect(c) => connect_well_formed(c),
        PacketView::Publish(p) => publish_well_formed(p),
        PacketView::Subscribe(s) => subscribe_well_formed(s),
        PacketView::Unsubscribe(u) => unsubscribe_well_formed(u),
        _ => true,
    }
}

/* Pieces */

/// A 16-bit number is read back from its two bytes, whatever follows.
pub proof fn lemma_parse_u16(n: u16, rest: Seq<u8>)
    ensures
        parse_u16(u16_bytes(n) + rest) == Ok::<u16, Error>(n),
        (u16_bytes(n) + rest).skip(2) == rest,
        (u16_bytes(n) + rest)[0] * 256 + (u16_bytes(n) + rest)[1] == n,
{
    let s = u16_bytes(n) + rest;
    assert(s[0] == (n / 256) as u8);
    assert(s[1] == (n % 256) as u8);
    assert(s.skip(2) =~= rest);
}

/// A string that fits its length prefix is read back from its bytes,
/// whatever follows.
pub proof fn lemma_parse_string(s: Seq<char>, rest: Seq<u8>)
    requires
        string_fits(s),
    ensures
        parse_string(string_bytes(s) + rest) == Ok::<(Seq<char>, int), Error>(
            (s, string_bytes(s).len() as int),
        ),
        (string_bytes(s) + rest).skip(string_bytes(s).len() as int) == rest,
        string_bytes(s).len() == 2 + encode_utf8(s).len(),
{
    let b = encode_utf8(s);
    let n = b.len() as u16;
    let x = string_bytes(s) + rest;
    assert(string_bytes(s) == u16_bytes(n) + b);
    assert(x =~= u16_bytes(n) + (b + rest));
    lemma_parse_u16(n, b + rest);
    assert(x.subrange(2, 2 + n) =~= b);
    encode_utf8_valid_utf8(s);
    encode_utf8_decode_utf8(s);
    assert(x.skip(string_bytes(s).len() as int) =~= rest);
}

/// The remaining length is read back from its bytes, whatever follows,
/// up to the largest one.
pub proof fn lemma_remaining_length_round_trip(len: nat, rest: Seq<u8>)
    requires
        len <= max_remaining_length(),
    ensures
        parse_remaining_length(remaining_length_bytes(len) + rest) == Ok::<(int, int), Error>(
            (len as int, remaining_length_bytes(len).len() as int),
        ),
        1 <= remaining_length_bytes(len).len() <= 4,
        (remaining_length_bytes(len) + rest).skip(remaining_length_bytes(len).len() as int)
            == rest,
{
    reveal_with_fuel(remaining_length_bytes, 5);
    let b = remaining_length_bytes(len);
    let s = b + rest;
    if len < 128 {
        assert(b =~= seq![len as u8]);
        assert(s[0] == len as u8);
    } else if len < 16384 {
        assert(b =~= seq![(len % 128 + 128) as u8, (len / 128) as u8]);
        assert(s[0] == (len % 128 + 128) as u8);
        assert(s[1] == (len / 128) as u8);
    } else if len < 2097152 {
        assert(b =~= seq![
            (len % 128 + 128) as u8,
            (len / 128 % 128 + 128) as u8,
            (len / 128 / 128) as u8,
        ]);
        assert(s[0] == (len % 128 + 128) as u8);
        assert(s[1] == (len / 128 % 128 + 128) as u8);
        assert(s[2] == (len / 128 / 128) as u8);
    } else {
        assert(b =~= seq![
            (len % 128 + 128) as u8,
            (len / 128 % 128 + 128) as u8,
            (len / 128 / 128 % 128 + 128) as u8,
            (len / 128 / 128 / 128) as u8,
        ]);
        assert(s[0] == (len % 128 + 128) as u8);
        assert(s[1] == (len / 128 % 128 + 128) as u8);
        assert(s[2] == (len / 128 / 128 % 128 + 128) as u8);
        assert(s[3] == (len / 128 / 128 / 128) as u8);
    }
    assert(s.skip(b.len() as int) =~= rest);
}

/// Four bytes with the high bit set and a fifth byte are no remaining
/// length.
pub proof fn lemma_remaining_length_fifth_byte(s: Seq<u8>)
    requires
        s.len() >= 5,
        s[0] >= 128,
        s[1] >= 128,
        s[2] >= 128,
        s[3] >= 128,
    ensures
        parse_remaining_length(s) == Err::<(int, int), Error>(Error::MalformedRemainingLength),
{
}

/// The connect flags hold each of their fields in its own bits.
proof fn lemma_flag_fields(c2: u8, w4: u8, q: u8, r20: u8, p40: u8, u80: u8)
    by (bit_vector)
    requires
        c2 == 0 || c2 == 0x02,
        w4 == 0 || w4 == 0x04,
        q <= 2,
        r20 == 0 || r20 == 0x20,
        p40 == 0 || p40 == 0x40,
        u80 == 0 || u80 == 0x80,
    ensures
        ({
            let f = c2 | w4 | (q << 3) | r20 | p40 | u80;
            &&& (f & 0x01) == 0
            &&& (f & 0x02) == c2
            &&& (f & 0x04) == w4
            &&& (f & 0x18) >> 3 == q
            &&& (f & 0x20) == r20
            &&& (f & 0x40) == p40
            &&& (f & 0x80) == u80
            &&& (q == 0 && r20 == 0 ==> (f & 0x38) == 0)
        }),
{
}

/// The connect flags of a well-formed CONNECT say what it holds.
pub proof fn lemma_connect_flags(c: ConnectView)
    requires
        c.password is Some ==> c.username is Some,
    ensures
        ({
            let f = connect_flags(c);
            &&& !connect_flags_malformed(f)
            &&& ((f & 0x02) != 0) == c.clean_session
            &&& ((f & 0x04) != 0) == (c.last_will is Some)
            &&& ((f & 0x40) != 0) == (c.password is Some)
            &&& ((f & 0x80) != 0) == (c.username is Some)
            &&& c.last_will is Some ==> QoS::spec_from_u8((f & 0x18) >> 3) == Ok::<QoS, Error>(
                c.last_will->Some_0.qos,
            ) && ((f & 0x20) != 0) == c.last_will->Some_0.retain
        }),
{
    let w = c.last_will is Some;
    let q: u8 = if w {
        c.last_will->Some_0.qos.spec_to_u8()
    } else {
        0
    };
    let r = w && c.last_will->Some_0.retain;
    lemma_flag_fields(
        bit(c.clean_session, 0x02),
        bit(w, 0x04),
        q,
        bit(r, 0x20),
        bit(c.password is Some, 0x40),
        bit(c.username is Some, 0x80),
    );
    assert(connect_flags(c) == flag_bits(
        c.clean_session,
        w,
        q,
        r,
        c.password is Some,
        c.username is Some,
    ));
}

/// An optional string that fits is read back from its bytes.
pub proof fn lemma_parse_opt_string(s: Option<Seq<char>>, rest: Seq<u8>)
    requires
        opt_string_fits(s),
    ensures
        parse_opt_string(s is Some, opt_string_bytes(s) + rest) == Ok::<
            (Option<Seq<char>>, int),
            Error,
        >((s, opt_string_bytes(s).len() as int)),
        (opt_string_bytes(s) + rest).skip(opt_string_bytes(s).len() as int) == rest,
{
    match s {
        Some(string) => {
            lemma_parse_string(string, rest);
        },
        None => {
            assert((opt_string_bytes(s) + rest).skip(0) =~= rest);
        },
    }
}

/// The will of a well-formed CONNECT is read back from its bytes.
pub proof fn lemma_parse_will(c: ConnectView, rest: Seq<u8>)
    requires
        connect_well_formed(c),
    ensures
        parse_will(connect_flags(c), will_bytes(c.last_will) + rest) == Ok::<
            (Option<LastWillView>, int),
            Error,
        >((c.last_will, will_bytes(c.last_will).len() as int)),
        (will_bytes(c.last_will) + rest).skip(will_bytes(c.last_will).len() as int) == rest,
{
    lemma_connect_flags(c);
    let s = will_bytes(c.last_will) + rest;
    match c.last_will {
        Some(w) => {
            assert(s =~= string_bytes(w.topic) + (string_bytes(w.message) + rest));
            lemma_parse_string(w.topic, string_bytes(w.message) + rest);
            lemma_parse_string(w.message, rest);
            assert(s.skip(will_bytes(c.last_will).len() as int) =~= rest);
        },
        None => {
            assert(s.skip(0) =~= rest);
        },
    }
}

/// Protocol, connect flags and keep-alive are read back from their
/// bytes, whatever follows.
pub proof fn lemma_parse_connect_head(protocol: Protocol, flags: u8, keep_alive: u16, rest: Seq<u8>)
    requires
        protocol.is_standard(),
    ensures
        parse_connect_head(connect_head_bytes(protocol, flags, keep_alive) + rest) == Ok::<
            (Protocol, u8, u16, int),
            Error,
        >((protocol, flags, keep_alive, connect_head_bytes(protocol, flags, keep_alive).len() as int)),
        (connect_head_bytes(protocol, flags, keep_alive) + rest).skip(
            connect_head_bytes(protocol, flags, keep_alive).len() as int,
        ) == rest,
{
    reveal(parse_connect_head);
    let name = protocol.spec_name();
    let h2 = u16_bytes(keep_alive) + rest;
    let h1 = seq![protocol.spec_level(), flags] + h2;
    let s = connect_head_bytes(protocol, flags, keep_alive) + rest;
    assert(s =~= string_bytes(name) + h1);
    assert(string_fits(name)) by {
        reveal_strlit("MQIsdp");
        reveal_strlit("MQTT");
        assert(is_ascii_chars(name));
        is_ascii_chars_encode_utf8(name);
    }
    lemma_parse_string(name, h1);
    lemma_protocol_new_name_level(protocol);
    let n = string_bytes(name).len() as int;
    assert(s[n] == protocol.spec_level());
    assert(s[n + 1] == flags);
    assert(s.skip(n + 2) =~= h2);
    lemma_parse_u16(keep_alive, rest);
    assert(s.skip(n + 4) =~= rest);
}

/// Will, username and password of a well-formed CONNECT are read back
/// from their bytes, whatever follows.
pub proof fn lemma_parse_connect_tail(c: ConnectView, rest: Seq<u8>)
    requires
        connect_well_formed(c),
    ensures
        parse_connect_tail(connect_flags(c), connect_tail_bytes(c) + rest) == Ok::<
            (Option<LastWillView>, Option<Seq<char>>, Option<Seq<char>>),
            Error,
        >((c.last_will, c.username, c.password)),
{
    reveal(parse_connect_tail);
    let t3 = opt_string_bytes(c.password) + rest;
    let t2 = opt_string_bytes(c.username) + t3;
    let t1 = connect_tail_bytes(c) + rest;
    assert(t1 =~= will_bytes(c.last_will) + t2);
    lemma_connect_flags(c);
    lemma_parse_will(c, t2);
    lemma_parse_opt_string(c.username, t3);
    lemma_parse_opt_string(c.password, rest);
    let nw = will_bytes(c.last_will).len() as int;
    let nu = opt_string_bytes(c.username).len() as int;
    assert(t1.skip(nw + nu) =~= t1.skip(nw).skip(nu));
}

/// A well-formed CONNECT is read back from its body, whatever follows.
pub proof fn lemma_parse_connect(c: ConnectView, rest: Seq<u8>)
    requires
        connect_well_formed(c),
    ensures
        parse_connect(connect_body(c) + rest) == Ok::<ConnectView, Error>(c),
{
    let flags = connect_flags(c);
    let head = connect_head_bytes(c.protocol, flags, c.keep_alive);
    let t1 = connect_tail_bytes(c) + rest;
    let t0 = string_bytes(c.client_id) + t1;
    let s = connect_body(c) + rest;
    assert(s =~= head + t0);
    lemma_parse_connect_head(c.protocol, flags, c.keep_alive, t0);
    lemma_parse_string(c.client_id, t1);
    let n1 = head.len() as int;
    let n2 = string_bytes(c.client_id).len() as int;
    assert(s.skip(n1 + n2) =~= s.skip(n1).skip(n2));
    lemma_connect_flags(c);
    lemma_parse_connect_tail(c, rest);
}

/// A CONNACK is read back from its body.
pub proof fn lemma_parse_connack(c: Connack)
    ensures
        parse_connack(connack_body(c)) == Ok::<Connack, Error>(c),
{
    assert(0x01u8 & 0x01 == 1 && 0x00u8 & 0x01 == 0) by (bit_vector);
}

/// The first byte of a PUBLISH holds each of its fields in its own
/// bits.
proof fn lemma_publish_fields(r1: u8, q: u8, d8: u8)
    by (bit_vector)
    requires
        r1 == 0 || r1 == 0x01,
        q <= 2,
        d8 == 0 || d8 == 0x08,
    ensures
        ({
            let hd = 0x30 | r1 | (q << 1) | d8;
            &&& hd >> 4 == 3
            &&& (hd & 0b110) >> 1 == q
            &&& (hd & 0x08) == d8
            &&& (hd & 0x01) == r1
        }),
{
}

/// A well-formed PUBLISH is read back from its first byte and body.
pub proof fn lemma_parse_publish(p: PublishView)
    requires
        publish_well_formed(p),
    ensures
        parse_publish(first_byte(PacketView::Publish(p)), publish_body(p)) == Ok::<
            PublishView,
            Error,
        >(p),
        PacketType::spec_from_hd(first_byte(PacketView::Publish(p))) == Ok::<PacketType, Error>(
            PacketType::Publish,
        ),
{
    lemma_publish_fields(bit(p.retain, 0x01), p.qos.spec_to_u8(), bit(p.dup, 0x08));
    let s = publish_body(p);
    let tail = publish_pid_bytes(p) + p.payload;
    assert(s =~= string_bytes(p.topic_name) + tail);
    lemma_parse_string(p.topic_name, tail);
    let n = string_bytes(p.topic_name).len() as int;
    if p.qos == QoS::AtMostOnce {
        assert(s.skip(n) =~= p.payload);
    } else {
        let pid = p.pid->Some_0;
        lemma_parse_u16(pid.0, p.payload);
        assert(s.skip(n) =~= u16_bytes(pid.0) + p.payload);
        assert(s.skip(n + 2) =~= p.payload);
        assert(s.skip(n + 2) =~= s.skip(n).skip(2));
    }
}

/// A packet identifier is read back from its two bytes.
pub proof fn lemma_parse_pid(pid: PacketIdentifier)
    ensures
        parse_pid(u16_bytes(pid.0)) == Ok::<PacketIdentifier, Error>(pid),
{
    lemma_parse_u16(pid.0, Seq::empty());
    assert(u16_bytes(pid.0) + Seq::<u8>::empty() =~= u16_bytes(pid.0));
}

/// Topic filters that fit are read back from their bytes.
pub proof fn lemma_parse_subscribe_topics(topics: Seq<SubscribeTopicView>)
    requires
        forall|i: int| 0 <= i < topics.len() ==> string_fits(#[trigger] topics[i].topic_path),
    ensures
        parse_subscribe_topics(subscribe_topics_bytes(topics)) == Ok::<
            Seq<SubscribeTopicView>,
            Error,
        >(topics),
    decreases topics.len(),
{
    if topics.len() == 0 {
        assert(topics =~= Seq::<SubscribeTopicView>::empty());
    } else {
        let t = topics[0];
        let rest = topics.drop_first();
        let s = subscribe_topics_bytes(topics);
        let tail = seq![t.qos.spec_to_u8()] + subscribe_topics_bytes(rest);
        assert(s =~= string_bytes(t.topic_path) + tail);
        lemma_parse_string(t.topic_path, tail);
        let n = string_bytes(t.topic_path).len() as int;
        assert(s[n] == t.qos.spec_to_u8());
        assert(parse_subscribe_topic(s) == Ok::<(SubscribeTopicView, int), Error>((t, n + 1)));
        assert(s.skip(n + 1) =~= subscribe_topics_bytes(rest));
        assert forall|i: int| 0 <= i < rest.len() implies string_fits(
            #[trigger] rest[i].topic_path,
        ) by {
            assert(rest[i] == topics[i + 1]);
        }
        lemma_parse_subscribe_topics(rest);
        assert(seq![t] + rest =~= topics);
    }
}

/// Strings that fit are read back from their bytes.
pub proof fn lemma_parse_strings(strings: Seq<Seq<char>>)
    requires
        forall|i: int| 0 <= i < strings.len() ==> string_fits(#[trigger] strings[i]),
    ensures
        parse_strings(strings_bytes(strings)) == Ok::<Seq<Seq<char>>, Error>(strings),
    decreases strings.len(),
{
    if strings.len() == 0 {
        assert(strings =~= Seq::<Seq<char>>::empty());
    } else {
        let t = strings[0];
        let rest = strings.drop_first();
        let s = strings_bytes(strings);
        assert(s =~= string_bytes(t) + strings_bytes(rest));
        lemma_parse_string(t, strings_bytes(rest));
        assert forall|i: int| 0 <= i < rest.len() implies string_fits(#[trigger] rest[i]) by {
            assert(rest[i] == strings[i + 1]);
        }
        lemma_parse_strings(rest);
        assert(seq![t] + rest =~= strings);
    }
}

/// The byte of a return code is a return code, and the one it came
/// from.
proof fn lemma_return_code(b: u8)
    by (bit_vector)
    requires
        b == 0 || b == 1 || b == 2 || b == 0x80,
    ensures
        (b >> 7 == 1) == (b == 0x80),
        b != 0x80 ==> (b & 0x03) == b,
{
}

/// Return codes are read back from their bytes.
pub proof fn lemma_parse_return_codes(codes: Seq<SubscribeReturnCodes>)
    ensures
        parse_return_codes(return_codes_bytes(codes)) == Ok::<
            Seq<SubscribeReturnCodes>,
            Error,
        >(codes),
{
    let s = return_codes_bytes(codes);
    assert forall|i: int| 0 <= i < s.len() implies return_code_valid(#[trigger] s[i])
        && return_code_of(s[i]) == codes[i] by {
        lemma_return_code(s[i]);
    }
    assert(Seq::new(s.len(), |i: int| return_code_of(s[i])) =~= codes);
}

/// The type of a packet.
pub open spec fn packet_type(p: PacketView) -> PacketType {
    match p {
        PacketView::Connect(_) => PacketType::Connect,
        PacketView::Connack(_) => PacketType::Connack,
        PacketView::Publish(_) => PacketType::Publish,
        PacketView::Puback(_) => PacketType::Puback,
        PacketView::Pubrec(_) => PacketType::Pubrec,
        PacketView::Pubrel(_) => PacketType::Pubrel,
        PacketView::Pubcomp(_) => PacketType::Pubcomp,
        PacketView::Subscribe(_) => PacketType::Subscribe,
        PacketView::Suback(_) => PacketType::Suback,
        PacketView::Unsubscribe(_) => PacketType::Unsubscribe,
        PacketView::Unsuback(_) => PacketType::Unsuback,
        PacketView::Pingreq => PacketType::Pingreq,
        PacketView::Pingresp => PacketType::Pingresp,
        PacketView::Disconnect => PacketType::Disconnect,
    }
}

/// The first byte that is written for a packet holds the packet's type.
pub proof fn lemma_first_byte_type(p: PacketView)
    ensures
        PacketType::spec_from_hd(first_byte(p)) == Ok::<PacketType, Error>(packet_type(p)),
{
    assert(0x10u8 >> 4 == 1 && 0x20u8 >> 4 == 2 && 0x40u8 >> 4 == 4 && 0x50u8 >> 4 == 5 && 0x62u8
        >> 4 == 6 && 0x70u8 >> 4 == 7 && 0x82u8 >> 4 == 8 && 0x90u8 >> 4 == 9 && 0xA2u8 >> 4 == 10
        && 0xB0u8 >> 4 == 11 && 0xC0u8 >> 4 == 12 && 0xD0u8 >> 4 == 13 && 0xE0u8 >> 4 == 14)
        by (bit_vector);
    if let PacketView::Publish(publish) = p {
        lemma_publish_fields(
            bit(publish.retain, 0x01),
            publish.qos.spec_to_u8(),
            bit(publish.dup, 0x08),
        );
    }
}

/// A well-formed SUBSCRIBE is read back from its body.
pub proof fn lemma_parse_subscribe(sub: SubscribeView)
    requires
        subscribe_well_formed(sub),
    ensures
        parse_subscribe(subscribe_body(sub)) == Ok::<SubscribeView, Error>(sub),
{
    lemma_parse_u16(sub.pid.0, subscribe_topics_bytes(sub.topics));
    lemma_parse_subscribe_topics(sub.topics);
}

/// A SUBACK is read back from its body.
pub proof fn lemma_parse_suback(sub: SubackView)
    ensures
        parse_suback(suback_body(sub)) == Ok::<SubackView, Error>(sub),
{
    lemma_parse_u16(sub.pid.0, return_codes_bytes(sub.return_codes));
    lemma_parse_return_codes(sub.return_codes);
}

/// A well-formed UNSUBSCRIBE is read back from its body.
pub proof fn lemma_parse_unsubscribe(unsub: UnsubscribeView)
    requires
        unsubscribe_well_formed(unsub),
    ensures
        parse_unsubscribe(unsubscribe_body(unsub)) == Ok::<UnsubscribeView, Error>(unsub),
{
    lemma_parse_u16(unsub.pid.0, strings_bytes(unsub.topics));
    lemma_parse_strings(unsub.topics);
}

/// A well-formed packet with a body is read back from its first byte
/// and its body.
pub proof fn lemma_parse_body(p: PacketView)
    requires
        well_formed(p),
        packet_body(p).len() > 0,
    ensures
        parse_body(first_byte(p), packet_type(p), packet_body(p)) == Ok::<PacketView, Error>(p),
{
    reveal(parse_body);
    match p {
        PacketView::Connect(c) => {
            lemma_parse_connect(c, Seq::empty());
            assert(connect_body(c) + Seq::<u8>::empty() =~= connect_body(c));
        },
        PacketView::Connack(c) => {
            lemma_parse_connack(c);
        },
        PacketView::Publish(publish) => {
            lemma_parse_publish(publish);
        },
        PacketView::Puback(pid) => {
            lemma_parse_pid(pid);
        },
        PacketView::Pubrec(pid) => {
            lemma_parse_pid(pid);
        },
        PacketView::Pubrel(pid) => {
            lemma_parse_pid(pid);
        },
        PacketView::Pubcomp(pid) => {
            lemma_parse_pid(pid);
        },
        PacketView::Subscribe(sub) => {
            lemma_parse_subscribe(sub);
        },
        PacketView::Suback(sub) => {
            lemma_parse_suback(sub);
        },
        PacketView::Unsubscribe(unsub) => {
            lemma_parse_unsubscribe(unsub);
        },
        PacketView::Unsuback(pid) => {
            lemma_parse_pid(pid);
        },
        PacketView::Pingreq => {},
        PacketView::Pingresp => {},
        PacketView::Disconnect => {},
    }
}

/// What the fixed header of a well-formed packet decides: the packet
/// itself where it has no body, else nothing.
pub proof fn lemma_parse_fixed(p: PacketView)
    requires
        well_formed(p),
    ensures
        packet_body(p).len() == 0 ==> parse_fixed(packet_type(p), 0) == Some(
            Ok::<PacketView, Error>(p),
        ),
        packet_body(p).len() > 0 ==> parse_fixed(packet_type(p), packet_body(p).len() as int)
            is None,
{
    match p {
        PacketView::Connect(c) => {
            assert(connect_body(c).len() >= 2);
        },
        PacketView::Publish(publish) => {
            assert(publish_body(publish).len() >= 2);
        },
        _ => {},
    }
}

/// Codec round trip: a well-formed packet that is written is read back
/// as the same packet, with exactly its bytes taken, whatever bytes
/// follow it.
pub proof fn lemma_packet_round_trip(p: PacketView, rest: Seq<u8>)
    requires
        well_formed(p),
    ensures
        parse_packet(packet_bytes(p) + rest) == Ok::<(PacketView, int), Error>(
            (p, packet_bytes(p).len() as int),
        ),
{
    let body = packet_body(p);
    let len = body.len();
    let length = remaining_length_bytes(len);
    let s = packet_bytes(p) + rest;
    assert(s =~= seq![first_byte(p)] + (length + (body + rest)));
    assert(s[0] == first_byte(p));
    assert(s.skip(1) =~= length + (body + rest));
    lemma_remaining_length_round_trip(len, body + rest);
    lemma_first_byte_type(p);
    lemma_parse_fixed(p);
    let n = length.len() as int;
    if len > 0 {
        assert(s.subrange(1 + n, 1 + n + len) =~= body);
        lemma_parse_body(p);
    } else {
        assert(packet_bytes(p).len() == 1 + n);
    }
}

} // verus!
