//! The wire format, as mathematics: what each packet is as bytes, and
//! which packet a sequence of bytes is.
use vstd::prelude::*;
use vstd::utf8::*;
use super::error::{Error, Result};
use super::mqtt::{
    Connack, ConnectView, PacketView, PublishView, SubackView, SubscribeReturnCodes,
    SubscribeTopicView, SubscribeView, UnsubscribeView,
};
use super::{
    ConnectReturnCode, LastWillView, PacketIdentifier, PacketType, Protocol, QoS,
    MAX_PAYLOAD_SIZE,
};

verus! {

/// The largest remaining length, as a mathematical integer.
pub open spec fn max_remaining_length() -> int {
    MAX_PAYLOAD_SIZE as int
}

/* What is written */

/// A 16-bit number, high byte first.
pub open spec fn u16_bytes(n: u16) -> Seq<u8> {
    seq![(n / 256) as u8, (n % 256) as u8]
}

/// A string: the length of its UTF-8 form as a 16-bit number, then that
/// form. A longer form than 65535 bytes does not fit the prefix, which
/// then holds the length modulo 2^16.
pub open spec fn string_bytes(s: Seq<char>) -> Seq<u8> {
    u16_bytes((encode_utf8(s).len() % 65536) as u16) + encode_utf8(s)
}

/// The remaining length: seven bits to a byte, low bits first, the high
/// bit set on every byte but the last.
pub open spec fn remaining_length_bytes(len: nat) -> Seq<u8>
    decreases len,
{
    if len < 128 {
        seq![len as u8]
    } else {
        seq![(len % 128 + 128) as u8] + remaining_length_bytes(len / 128)
    }
}

/// `mask` where `flag` holds, else no bit.
pub open spec fn bit(flag: bool, mask: u8) -> u8 {
    if flag {
        mask
    } else {
        0
    }
}

/// The connect flags: bit 1 clean session, bit 2 will, bits 3 and 4 the
/// tier of the will, bit 5 will retain, bit 6 password, bit 7 username.
pub open spec fn flag_bits(
    clean_session: bool,
    will: bool,
    will_qos: u8,
    will_retain: bool,
    password: bool,
    username: bool,
) -> u8 {
    bit(clean_session, 0x02) | bit(will, 0x04) | (will_qos << 3) | bit(will_retain, 0x20) | bit(
        password,
        0x40,
    ) | bit(username, 0x80)
}

pub open spec fn connect_flags(c: ConnectView) -> u8 {
    match c.last_will {
        Some(w) => flag_bits(
            c.clean_session,
            true,
            w.qos.spec_to_u8(),
            w.retain,
            c.password is Some,
            c.username is Some,
        ),
        None => flag_bits(c.clean_session, false, 0, false, c.password is Some, c.username is Some),
    }
}

/// The first byte of a PUBLISH: type 3, then DUP in bit 3, the tier in
/// bits 1 and 2, RETAIN in bit 0.
pub open spec fn publish_first_byte(dup: bool, qos: u8, retain: bool) -> u8 {
    0x30 | bit(retain, 0x01) | (qos << 1) | bit(dup, 0x08)
}

pub open spec fn opt_string_bytes(s: Option<Seq<char>>) -> Seq<u8> {
    match s {
        Some(s) => string_bytes(s),
        None => Seq::<u8>::empty(),
    }
}

pub open spec fn will_bytes(w: Option<LastWillView>) -> Seq<u8> {
    match w {
        Some(w) => string_bytes(w.topic) + string_bytes(w.message),
        None => Seq::<u8>::empty(),
    }
}

/// The bytes of protocol name and level, connect flags and keep-alive.
pub open spec fn connect_head_bytes(protocol: Protocol, flags: u8, keep_alive: u16) -> Seq<u8> {
    string_bytes(protocol.spec_name()) + seq![protocol.spec_level(), flags] + u16_bytes(
        keep_alive,
    )
}

/// The bytes of will, username and password.
pub open spec fn connect_tail_bytes(c: ConnectView) -> Seq<u8> {
    will_bytes(c.last_will) + opt_string_bytes(c.username) + opt_string_bytes(c.password)
}

pub open spec fn connect_body(c: ConnectView) -> Seq<u8> {
    connect_head_bytes(c.protocol, connect_flags(c), c.keep_alive) + string_bytes(c.client_id)
        + connect_tail_bytes(c)
}

pub open spec fn connack_body(c: Connack) -> Seq<u8> {
    seq![bit(c.session_present, 0x01), c.code.spec_to_u8()]
}

/// The packet identifier of a PUBLISH as it is written: only with a tier
/// above 0, and only if there is one.
pub open spec fn publish_pid_bytes(p: PublishView) -> Seq<u8> {
    if p.qos != QoS::AtMostOnce && p.pid is Some {
        u16_bytes(p.pid->Some_0.0)
    } else {
        Seq::<u8>::empty()
    }
}

/// What stands before the payload of a PUBLISH: the topic name, and
/// the packet identifier if it is written.
pub open spec fn publish_head(p: PublishView) -> Seq<u8> {
    string_bytes(p.topic_name) + publish_pid_bytes(p)
}

pub open spec fn publish_body(p: PublishView) -> Seq<u8> {
    publish_head(p) + p.payload
}

pub open spec fn subscribe_topic_bytes(t: SubscribeTopicView) -> Seq<u8> {
    string_bytes(t.topic_path) + seq![t.qos.spec_to_u8()]
}

pub open spec fn subscribe_topics_bytes(topics: Seq<SubscribeTopicView>) -> Seq<u8>
    decreases topics.len(),
{
    if topics.len() == 0 {
        Seq::<u8>::empty()
    } else {
        subscribe_topic_bytes(topics[0]) + subscribe_topics_bytes(topics.drop_first())
    }
}

pub open spec fn subscribe_body(s: SubscribeView) -> Seq<u8> {
    u16_bytes(s.pid.0) + subscribe_topics_bytes(s.topics)
}

/// A return code of a SUBACK: the granted tier, or 0x80 for a failure.
pub open spec fn return_code_byte(code: SubscribeReturnCodes) -> u8 {
    match code {
        SubscribeReturnCodes::Success(qos) => qos.spec_to_u8(),
        SubscribeReturnCodes::Failure => 0x80,
    }
}

pub open spec fn return_codes_bytes(codes: Seq<SubscribeReturnCodes>) -> Seq<u8> {
    Seq::new(codes.len(), |i: int| return_code_byte(codes[i]))
}

pub open spec fn suback_body(s: SubackView) -> Seq<u8> {
    u16_bytes(s.pid.0) + return_codes_bytes(s.return_codes)
}

pub open spec fn strings_bytes(strings: Seq<Seq<char>>) -> Seq<u8>
    decreases strings.len(),
{
    if strings.len() == 0 {
        Seq::<u8>::empty()
    } else {
        string_bytes(strings[0]) + strings_bytes(strings.drop_first())
    }
}

pub open spec fn unsubscribe_body(u: UnsubscribeView) -> Seq<u8> {
    u16_bytes(u.pid.0) + strings_bytes(u.topics)
}

/// The first byte that is written for a packet.
pub open spec fn first_byte(p: PacketView) -> u8 {
    match p {
        PacketView::Connect(_) => 0x10,
        PacketView::Connack(_) => 0x20,
        PacketView::Publish(p) => publish_first_byte(p.dup, p.qos.spec_to_u8(), p.retain),
        PacketView::Puback(_) => 0x40,
        PacketView::Pubrec(_) => 0x50,
        PacketView::Pubrel(_) => 0x62,
        PacketView::Pubcomp(_) => 0x70,
        PacketView::Subscribe(_) => 0x82,
        PacketView::Suback(_) => 0x90,
        PacketView::Unsubscribe(_) => 0xA2,
        PacketView::Unsuback(_) => 0xB0,
        PacketView::Pingreq => 0xC0,
        PacketView::Pingresp => 0xD0,
        PacketView::Disconnect => 0xE0,
    }
}

/// What follows the fixed header of a packet.
pub open spec fn packet_body(p: PacketView) -> Seq<u8> {
    match p {
        PacketView::Connect(c) => connect_body(c),
        PacketView::Connack(c) => connack_body(c),
        PacketView::Publish(p) => publish_body(p),
        PacketView::Puback(pid) => u16_bytes(pid.0),
        PacketView::Pubrec(pid) => u16_bytes(pid.0),
        PacketView::Pubrel(pid) => u16_bytes(pid.0),
        PacketView::Pubcomp(pid) => u16_bytes(pid.0),
        PacketView::Subscribe(s) => subscribe_body(s),
        PacketView::Suback(s) => suback_body(s),
        PacketView::Unsubscribe(u) => unsubscribe_body(u),
        PacketView::Unsuback(pid) => u16_bytes(pid.0),
        PacketView::Pingreq => Seq::<u8>::empty(),
        PacketView::Pingresp => Seq::<u8>::empty(),
        PacketView::Disconnect => Seq::<u8>::empty(),
    }
}

/// A packet on the wire: first byte, remaining length, body.
pub open spec fn packet_bytes(p: PacketView) -> Seq<u8> {
    seq![first_byte(p)] + remaining_length_bytes(packet_body(p).len()) + packet_body(p)
}

/* What is read */

pub open spec fn parse_u16(s: Seq<u8>) -> Result<u16> {
    if s.len() < 2 {
        Err(Error::UnexpectedEof)
    } else {
        Ok((s[0] * 256 + s[1]) as u16)
    }
}

/// A string at the front of `s`, and the number of bytes it takes.
pub open spec fn parse_string(s: Seq<u8>) -> Result<(Seq<char>, int)> {
    if s.len() < 2 {
        Err(Error::UnexpectedEof)
    } else {
        let n = s[0] * 256 + s[1];
        if s.len() < 2 + n {
            Err(Error::UnexpectedEof)
        } else if !valid_utf8(s.subrange(2, 2 + n)) {
            Err(Error::TopicNameMustNotContainNonUtf8)
        } else {
            Ok((decode_utf8(s.subrange(2, 2 + n)), 2 + n))
        }
    }
}

/// The remaining length at the front of `s`, and the number of bytes
/// it takes: at most four. After four bytes with the high bit set a
/// fifth is read, and the length is malformed.
pub open spec fn parse_remaining_length(s: Seq<u8>) -> Result<(int, int)> {
    if s.len() < 1 {
        Err(Error::UnexpectedEof)
    } else if s[0] < 128 {
        Ok((s[0] as int, 1))
    } else if s.len() < 2 {
        Err(Error::UnexpectedEof)
    } else if s[1] < 128 {
        Ok(((s[0] - 128) + s[1] * 128, 2))
    } else if s.len() < 3 {
        Err(Error::UnexpectedEof)
    } else if s[2] < 128 {
        Ok(((s[0] - 128) + (s[1] - 128) * 128 + s[2] * 16384, 3))
    } else if s.len() < 4 {
        Err(Error::UnexpectedEof)
    } else if s[3] < 128 {
        Ok(((s[0] - 128) + (s[1] - 128) * 128 + (s[2] - 128) * 16384 + s[3] * 2097152, 4))
    } else if s.len() < 5 {
        Err(Error::UnexpectedEof)
    } else {
        Err(Error::MalformedRemainingLength)
    }
}

/// Connect flags that no CONNECT may carry: the reserved bit 0, a will
/// tier or will retain without a will, a password without a username.
pub open spec fn connect_flags_malformed(flags: u8) -> bool {
    ||| (flags & 0x01) != 0
    ||| ((flags & 0x04) == 0 && (flags & 0x38) != 0)
    ||| ((flags & 0x40) != 0 && (flags & 0x80) == 0)
}

/// The will of a CONNECT with these flags, at the front of `s`, and the
/// number of bytes it takes.
pub open spec fn parse_will(flags: u8, s: Seq<u8>) -> Result<(Option<LastWillView>, int)> {
    if (flags & 0x04) == 0 {
        Ok((None, 0))
    } else {
        match parse_string(s) {
            Err(e) => Err(e),
            Ok((topic, n1)) => match parse_string(s.skip(n1)) {
                Err(e) => Err(e),
                Ok((message, n2)) => match QoS::spec_from_u8((flags & 0x18) >> 3) {
                    Err(e) => Err(e),
                    Ok(qos) => Ok(
                        (
                            Some(
                                LastWillView {
                                    topic: topic,
                                    message: message,
                                    qos: qos,
                                    retain: (flags & 0x20) != 0,
                                },
                            ),
                            n1 + n2,
                        ),
                    ),
                },
            },
        }
    }
}

/// A string at the front of `s` if `present`, and the number of bytes
/// it takes.
pub open spec fn parse_opt_string(present: bool, s: Seq<u8>) -> Result<(Option<Seq<char>>, int)> {
    if !present {
        Ok((None, 0))
    } else {
        match parse_string(s) {
            Err(e) => Err(e),
            Ok((string, n)) => Ok((Some(string), n)),
        }
    }
}

/// Protocol name, level, flags and keep-alive at the front of the body
/// of a CONNECT, and the number of bytes that they take.
#[verifier::opaque]
pub open spec fn parse_connect_head(s: Seq<u8>) -> Result<(Protocol, u8, u16, int)> {
    match parse_string(s) {
        Err(e) => Err(e),
        Ok((name, n)) => if s.len() < n + 1 {
            Err(Error::UnexpectedEof)
        } else {
            match Protocol::spec_new(name, s[n]) {
                Err(e) => Err(e),
                Ok(protocol) => if s.len() < n + 2 {
                    Err(Error::UnexpectedEof)
                } else {
                    match parse_u16(s.skip(n + 2)) {
                        Err(e) => Err(e),
                        Ok(keep_alive) => Ok((protocol, s[n + 1], keep_alive, n + 4)),
                    }
                },
            }
        },
    }
}

/// Will, username and password of a CONNECT with these flags.
#[verifier::opaque]
pub open spec fn parse_connect_tail(flags: u8, s: Seq<u8>) -> Result<
    (Option<LastWillView>, Option<Seq<char>>, Option<Seq<char>>),
> {
    match parse_will(flags, s) {
        Err(e) => Err(e),
        Ok((last_will, n1)) => match parse_opt_string((flags & 0x80) != 0, s.skip(n1)) {
            Err(e) => Err(e),
            Ok((username, n2)) => match parse_opt_string((flags & 0x40) != 0, s.skip(n1 + n2)) {
                Err(e) => Err(e),
                Ok((password, _)) => Ok((last_will, username, password)),
            },
        },
    }
}

/// The CONNECT whose body is `s`. Bytes behind the last field are
/// passed over.
pub open spec fn parse_connect(s: Seq<u8>) -> Result<ConnectView> {
    match parse_connect_head(s) {
        Err(e) => Err(e),
        Ok((protocol, flags, keep_alive, n1)) => match parse_string(s.skip(n1)) {
            Err(e) => Err(e),
            Ok((client_id, n2)) => if connect_flags_malformed(flags) {
                Err(Error::IncorrectPacketFormat)
            } else {
                match parse_connect_tail(flags, s.skip(n1 + n2)) {
                    Err(e) => Err(e),
                    Ok((last_will, username, password)) => Ok(
                        ConnectView {
                            protocol: protocol,
                            keep_alive: keep_alive,
                            client_id: client_id,
                            clean_session: (flags & 0x02) != 0,
                            last_will: last_will,
                            username: username,
                            password: password,
                        },
                    ),
                }
            },
        },
    }
}

/// The CONNACK whose body is `s`.
pub open spec fn parse_connack(s: Seq<u8>) -> Result<Connack> {
    if s.len() != 2 {
        Err(Error::PayloadSizeIncorrect)
    } else {
        match ConnectReturnCode::spec_from_u8(s[1]) {
            Err(e) => Err(e),
            Ok(code) => Ok(Connack { session_present: (s[0] & 0x01) == 1, code: code }),
        }
    }
}

/// The PUBLISH whose first byte is `hd` and whose body is `s`.
pub open spec fn parse_publish(hd: u8, s: Seq<u8>) -> Result<PublishView> {
    match QoS::spec_from_hd(hd) {
        Err(e) => Err(e),
        Ok(qos) => match parse_string(s) {
            Err(e) => Err(e),
            Ok((topic_name, n)) => if qos == QoS::AtMostOnce {
                Ok(
                    PublishView {
                        dup: (hd & 0x08) != 0,
                        qos: qos,
                        retain: (hd & 0x01) != 0,
                        topic_name: topic_name,
                        pid: None,
                        payload: s.skip(n),
                    },
                )
            } else {
                match parse_u16(s.skip(n)) {
                    Err(e) => Err(e),
                    Ok(pid) => Ok(
                        PublishView {
                            dup: (hd & 0x08) != 0,
                            qos: qos,
                            retain: (hd & 0x01) != 0,
                            topic_name: topic_name,
                            pid: Some(PacketIdentifier(pid)),
                            payload: s.skip(n + 2),
                        },
                    ),
                }
            },
        },
    }
}

/// The packet identifier that is the whole body `s`.
pub open spec fn parse_pid(s: Seq<u8>) -> Result<PacketIdentifier> {
    if s.len() != 2 {
        Err(Error::PayloadSizeIncorrect)
    } else {
        Ok(PacketIdentifier((s[0] * 256 + s[1]) as u16))
    }
}

/// `first` before what `rest` holds, or the error of `rest`.
pub open spec fn prepend<T>(first: Seq<T>, rest: Result<Seq<T>>) -> Result<Seq<T>> {
    match rest {
        Err(e) => Err(e),
        Ok(rest) => Ok(first + rest),
    }
}

/// One topic filter with its tier at the front of `s`, and the number
/// of bytes it takes.
pub open spec fn parse_subscribe_topic(s: Seq<u8>) -> Result<(SubscribeTopicView, int)> {
    match parse_string(s) {
        Err(e) => Err(e),
        Ok((topic_path, n)) => if s.len() < n + 1 {
            Err(Error::UnexpectedEof)
        } else {
            match QoS::spec_from_u8(s[n]) {
                Err(e) => Err(e),
                Ok(qos) => Ok((SubscribeTopicView { topic_path: topic_path, qos: qos }, n + 1)),
            }
        },
    }
}

/// The topic filters with their tiers that fill `s`.
pub open spec fn parse_subscribe_topics(s: Seq<u8>) -> Result<Seq<SubscribeTopicView>>
    decreases s.len(),
{
    if s.len() == 0 {
        Ok(Seq::empty())
    } else {
        match parse_subscribe_topic(s) {
            Err(e) => Err(e),
            Ok((topic, n)) => if 0 < n <= s.len() {
                prepend(seq![topic], parse_subscribe_topics(s.skip(n)))
            } else {
                Err(Error::UnexpectedEof)
            },
        }
    }
}

/// The SUBSCRIBE whose body is `s`.
pub open spec fn parse_subscribe(s: Seq<u8>) -> Result<SubscribeView> {
    match parse_u16(s) {
        Err(e) => Err(e),
        Ok(pid) => match parse_subscribe_topics(s.skip(2)) {
            Err(e) => Err(e),
            Ok(topics) => Ok(SubscribeView { pid: PacketIdentifier(pid), topics: topics }),
        },
    }
}

/// Whether a byte is a return code: the failure bit, or a tier.
pub open spec fn return_code_valid(byte: u8) -> bool {
    byte >> 7 == 1 || (byte & 0x03) != 3
}

/// The return code for a byte: a failure with bit 7, else the tier in
/// bits 0 and 1.
pub open spec fn return_code_of(byte: u8) -> SubscribeReturnCodes {
    if byte >> 7 == 1 {
        SubscribeReturnCodes::Failure
    } else if (byte & 0x03) == 0 {
        SubscribeReturnCodes::Success(QoS::AtMostOnce)
    } else if (byte & 0x03) == 1 {
        SubscribeReturnCodes::Success(QoS::AtLeastOnce)
    } else {
        SubscribeReturnCodes::Success(QoS::ExactlyOnce)
    }
}

/// The return codes that fill `s`.
pub open spec fn parse_return_codes(s: Seq<u8>) -> Result<Seq<SubscribeReturnCodes>> {
    if forall|i: int| 0 <= i < s.len() ==> return_code_valid(#[trigger] s[i]) {
        Ok(Seq::new(s.len(), |i: int| return_code_of(s[i])))
    } else {
        Err(Error::UnsupportedQualityOfService)
    }
}

/// The SUBACK whose body is `s`.
pub open spec fn parse_suback(s: Seq<u8>) -> Result<SubackView> {
    match parse_u16(s) {
        Err(e) => Err(e),
        Ok(pid) => match parse_return_codes(s.skip(2)) {
            Err(e) => Err(e),
            Ok(codes) => Ok(SubackView { pid: PacketIdentifier(pid), return_codes: codes }),
        },
    }
}

/// The strings that fill `s`.
pub open spec fn parse_strings(s: Seq<u8>) -> Result<Seq<Seq<char>>>
    decreases s.len(),
{
    if s.len() == 0 {
        Ok(Seq::empty())
    } else {
        match parse_string(s) {
            Err(e) => Err(e),
            Ok((string, n)) => if 0 < n <= s.len() {
                prepend(seq![string], parse_strings(s.skip(n)))
            } else {
                Err(Error::UnexpectedEof)
            },
        }
    }
}

/// The UNSUBSCRIBE whose body is `s`.
pub open spec fn parse_unsubscribe(s: Seq<u8>) -> Result<UnsubscribeView> {
    match parse_u16(s) {
        Err(e) => Err(e),
        Ok(pid) => match parse_strings(s.skip(2)) {
            Err(e) => Err(e),
            Ok(topics) => Ok(UnsubscribeView { pid: PacketIdentifier(pid), topics: topics }),
        },
    }
}

/// What the fixed header alone decides: a packet without a body, or the
/// error of a remaining length that the type does not allow. `None`
/// where the body has to be looked at.
pub open spec fn parse_fixed(typ: PacketType, len: int) -> Option<Result<PacketView>> {
    if len == 0 {
        match typ {
            PacketType::Pingreq => Some(Ok(PacketView::Pingreq)),
            PacketType::Pingresp => Some(Ok(PacketView::Pingresp)),
            PacketType::Disconnect => Some(Ok(PacketView::Disconnect)),
            _ => Some(Err(Error::PayloadRequired)),
        }
    } else {
        match typ {
            PacketType::Connack | PacketType::Puback | PacketType::Pubrec | PacketType::Pubrel
            | PacketType::Pubcomp | PacketType::Unsuback => if len != 2 {
                Some(Err(Error::PayloadSizeIncorrect))
            } else {
                None
            },
            PacketType::Pingreq | PacketType::Pingresp => Some(Err(Error::IncorrectPacketFormat)),
            PacketType::Disconnect => Some(Err(Error::UnsupportedPacketType)),
            _ => None,
        }
    }
}

/// The packet of type `typ` whose first byte is `hd` and whose body,
/// which is not empty, is `s`.
#[verifier::opaque]
pub open spec fn parse_body(hd: u8, typ: PacketType, s: Seq<u8>) -> Result<PacketView> {
    match typ {
        PacketType::Connect => match parse_connect(s) {
            Err(e) => Err(e),
            Ok(c) => Ok(PacketView::Connect(c)),
        },
        PacketType::Connack => match parse_connack(s) {
            Err(e) => Err(e),
            Ok(c) => Ok(PacketView::Connack(c)),
        },
        PacketType::Publish => match parse_publish(hd, s) {
            Err(e) => Err(e),
            Ok(p) => Ok(PacketView::Publish(p)),
        },
        PacketType::Puback => match parse_pid(s) {
            Err(e) => Err(e),
            Ok(pid) => Ok(PacketView::Puback(pid)),
        },
        PacketType::Pubrec => match parse_pid(s) {
            Err(e) => Err(e),
            Ok(pid) => Ok(PacketView::Pubrec(pid)),
        },
        PacketType::Pubrel => match parse_pid(s) {
            Err(e) => Err(e),
            Ok(pid) => Ok(PacketView::Pubrel(pid)),
        },
        PacketType::Pubcomp => match parse_pid(s) {
            Err(e) => Err(e),
            Ok(pid) => Ok(PacketView::Pubcomp(pid)),
        },
        PacketType::Subscribe => match parse_subscribe(s) {
            Err(e) => Err(e),
            Ok(sub) => Ok(PacketView::Subscribe(sub)),
        },
        PacketType::Suback => match parse_suback(s) {
            Err(e) => Err(e),
            Ok(sub) => Ok(PacketView::Suback(sub)),
        },
        PacketType::Unsubscribe => match parse_unsubscribe(s) {
            Err(e) => Err(e),
            Ok(unsub) => Ok(PacketView::Unsubscribe(unsub)),
        },
        PacketType::Unsuback => match parse_pid(s) {
            Err(e) => Err(e),
            Ok(pid) => Ok(PacketView::Unsuback(pid)),
        },
        PacketType::Pingreq => Err(Error::IncorrectPacketFormat),
        PacketType::Pingresp => Err(Error::IncorrectPacketFormat),
        PacketType::Disconnect => Err(Error::UnsupportedPacketType),
    }
}

/// The packet at the front of `s`, and the number of bytes it takes.
///
/// The first byte and the remaining length are read; then the type is
/// looked up; then the remaining length is held against the type; then
/// the whole body must be there; then the body is read.
pub open spec fn parse_packet(s: Seq<u8>) -> Result<(PacketView, int)> {
    if s.len() < 1 {
        Err(Error::UnexpectedEof)
    } else {
        match parse_remaining_length(s.skip(1)) {
            Err(e) => Err(e),
            Ok((len, n)) => match PacketType::spec_from_hd(s[0]) {
                Err(e) => Err(e),
                Ok(typ) => match parse_fixed(typ, len) {
                    Some(Err(e)) => Err(e),
                    Some(Ok(p)) => Ok((p, 1 + n)),
                    None => if s.len() < 1 + n + len {
                        Err(Error::UnexpectedEof)
                    } else {
                        match parse_body(s[0], typ, s.subrange(1 + n, 1 + n + len)) {
                            Err(e) => Err(e),
                            Ok(p) => Ok((p, 1 + n + len)),
                        }
                    },
                },
            },
        }
    }
}

/* How the wire format behaves */

/// One more topic filter adds its bytes at the end.
pub proof fn lemma_subscribe_topics_bytes_push(
    topics: Seq<SubscribeTopicView>,
    topic: SubscribeTopicView,
)
    ensures
        subscribe_topics_bytes(topics.push(topic)) == subscribe_topics_bytes(topics)
            + subscribe_topic_bytes(topic),
    decreases topics.len(),
{
    if topics.len() == 0 {
        assert(topics.push(topic).drop_first() =~= Seq::<SubscribeTopicView>::empty());
        assert(subscribe_topics_bytes(Seq::<SubscribeTopicView>::empty()) =~= Seq::<u8>::empty());
        assert(topics.push(topic)[0] == topic);
        assert(subscribe_topics_bytes(topics.push(topic)) =~= subscribe_topic_bytes(topic));
        assert(subscribe_topics_bytes(topics) + subscribe_topic_bytes(topic)
            =~= subscribe_topic_bytes(topic));
    } else {
        assert(topics.push(topic).drop_first() =~= topics.drop_first().push(topic));
        lemma_subscribe_topics_bytes_push(topics.drop_first(), topic);
        assert(subscribe_topics_bytes(topics.push(topic)) =~= subscribe_topics_bytes(topics)
            + subscribe_topic_bytes(topic));
    }
}

/// One more string adds its bytes at the end.
pub proof fn lemma_strings_bytes_push(strings: Seq<Seq<char>>, string: Seq<char>)
    ensures
        strings_bytes(strings.push(string)) == strings_bytes(strings) + string_bytes(string),
    decreases strings.len(),
{
    if strings.len() == 0 {
        assert(strings.push(string).drop_first() =~= Seq::<Seq<char>>::empty());
        assert(strings_bytes(Seq::<Seq<char>>::empty()) =~= Seq::<u8>::empty());
        assert(strings.push(string)[0] == string);
        assert(strings_bytes(strings.push(string)) =~= string_bytes(string));
        assert(strings_bytes(strings) + string_bytes(string) =~= string_bytes(string));
    } else {
        assert(strings.push(string).drop_first() =~= strings.drop_first().push(string));
        lemma_strings_bytes_push(strings.drop_first(), string);
        assert(strings_bytes(strings.push(string)) =~= strings_bytes(strings) + string_bytes(
            string,
        ));
    }
}

} // verus!
