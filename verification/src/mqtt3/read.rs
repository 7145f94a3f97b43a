//! The decoder: bytes to packets.
use byteorder::{BigEndian, ByteOrder};
use std::sync::Arc;
use vstd::prelude::*;
use vstd::slice::{slice_subrange, slice_to_vec};
use vstd::utf8::*;
use super::error::{Error, Result};
use super::mqtt::{
    opt_will_view, strings_view, topics_view, Connack, Connect, Packet, Publish, Suback, Subscribe,
    SubscribeReturnCodes, SubscribeTopic, Unsubscribe,
};
use super::wire::{
    parse_body, parse_connack, parse_connect, parse_connect_head, parse_connect_tail, parse_fixed,
    parse_opt_string, parse_packet, parse_pid, parse_publish, parse_remaining_length, parse_string,
    parse_strings, parse_suback, parse_subscribe, parse_subscribe_topics, parse_u16,
    parse_unsubscribe, parse_will, prepend, return_code_of, return_code_valid,
};
use super::{
    opt_string_view, ConnectReturnCode, Header, LastWill, PacketIdentifier, PacketType, Protocol,
    QoS,
};

verus! {

/// The 16-bit number in the first two bytes, high byte first.
///
/// Calls `byteorder::BigEndian::read_u16`, which reads the first two
/// bytes in big-endian order and panics on fewer than two.
#[verifier::external_body]
fn be_u16(bytes: &[u8]) -> (n: u16)
    requires
        bytes@.len() >= 2,
    ensures
        n == bytes@[0] * 256 + bytes@[1],
{
    BigEndian::read_u16(bytes)
}

/// The string that these bytes are the UTF-8 form of, if they are one.
///
/// Calls `String::from_utf8`, which hands the bytes back as a string if
/// and only if they are valid UTF-8.
#[verifier::external_body]
fn string_from_utf8(bytes: Vec<u8>) -> (s: Option<String>)
    ensures
        s is Some <==> valid_utf8(bytes@),
        s is Some ==> encode_utf8(s->Some_0@) == bytes@,
{
    match String::from_utf8(bytes) {
        Ok(s) => Some(s),
        Err(_) => None,
    }
}

/// The 16-bit number at `pos`, in the bytes up to `end`.
pub fn decode_u16(buf: &[u8], pos: usize, end: usize) -> (r: Result<u16>)
    requires
        pos <= end <= buf@.len(),
    ensures
        r == parse_u16(buf@.subrange(pos as int, end as int)),
{
    if end - pos < 2 {
        return Err(Error::UnexpectedEof);
    }
    Ok(be_u16(slice_subrange(buf, pos, pos + 2)))
}

/// The string at `pos`, in the bytes up to `end`, and the position
/// behind it.
pub fn decode_string(buf: &[u8], pos: usize, end: usize) -> (r: Result<(String, usize)>)
    requires
        pos <= end <= buf@.len(),
    ensures
        match parse_string(buf@.subrange(pos as int, end as int)) {
            Ok((s, n)) => r matches Ok((string, next)) && string@ == s && next == pos + n
                && next <= end,
            Err(e) => r matches Err(err) && err == e,
        },
{
    let ghost window = buf@.subrange(pos as int, end as int);
    if end - pos < 2 {
        return Err(Error::UnexpectedEof);
    }
    let n = be_u16(slice_subrange(buf, pos, pos + 2)) as usize;
    if end - pos - 2 < n {
        return Err(Error::UnexpectedEof);
    }
    let bytes = slice_to_vec(slice_subrange(buf, pos + 2, pos + 2 + n));
    assert(bytes@ =~= window.subrange(2, 2 + n));
    match string_from_utf8(bytes) {
        Some(string) => {
            proof {
                encode_utf8_decode_utf8(string@);
            }
            Ok((string, pos + 2 + n))
        },
        None => Err(Error::TopicNameMustNotContainNonUtf8),
    }
}

/// The remaining length at `pos`, in the bytes up to `end`, and the
/// position behind it.
pub fn decode_remaining_length(buf: &[u8], pos: usize, end: usize) -> (r: Result<(usize, usize)>)
    requires
        pos <= end <= buf@.len(),
    ensures
        match parse_remaining_length(buf@.subrange(pos as int, end as int)) {
            Ok((len, n)) => r == Ok::<(usize, usize), Error>((len as usize, (pos + n) as usize))
                && 0 <= len <= 268435455 && pos + n <= end,
            Err(e) => r matches Err(err) && err == e,
        },
{
    let ghost window = buf@.subrange(pos as int, end as int);
    let left = end - pos;
    if left < 1 {
        return Err(Error::UnexpectedEof);
    }
    let b0 = buf[pos] as usize;
    assert(b0 == window[0]);
    if b0 < 128 {
        return Ok((b0, pos + 1));
    }
    if left < 2 {
        return Err(Error::UnexpectedEof);
    }
    let b1 = buf[pos + 1] as usize;
    assert(b1 == window[1]);
    if b1 < 128 {
        return Ok(((b0 - 128) + b1 * 128, pos + 2));
    }
    if left < 3 {
        return Err(Error::UnexpectedEof);
    }
    let b2 = buf[pos + 2] as usize;
    assert(b2 == window[2]);
    if b2 < 128 {
        return Ok(((b0 - 128) + (b1 - 128) * 128 + b2 * 16384, pos + 3));
    }
    if left < 4 {
        return Err(Error::UnexpectedEof);
    }
    let b3 = buf[pos + 3] as usize;
    assert(b3 == window[3]);
    if b3 < 128 {
        return Ok(((b0 - 128) + (b1 - 128) * 128 + (b2 - 128) * 16384 + b3 * 2097152, pos + 4));
    }
    if left < 5 {
        return Err(Error::UnexpectedEof);
    }
    Err(Error::MalformedRemainingLength)
}

/// Protocol, connect flags and keep-alive at `pos`, and the position
/// behind them.
fn decode_connect_head(buf: &[u8], pos: usize, end: usize) -> (r: Result<
    (Protocol, u8, u16, usize),
>)
    requires
        pos <= end <= buf@.len(),
    ensures
        match parse_connect_head(buf@.subrange(pos as int, end as int)) {
            Ok((protocol, flags, keep_alive, n)) => r == Ok::<(Protocol, u8, u16, usize), Error>(
                (protocol, flags, keep_alive, (pos + n) as usize),
            ) && pos <= pos + n <= end,
            Err(e) => r matches Err(err) && err == e,
        },
{
    reveal(parse_connect_head);
    let ghost window = buf@.subrange(pos as int, end as int);
    let (name, mid) = match decode_string(buf, pos, end) {
        Ok(found) => found,
        Err(e) => {
            return Err(e);
        },
    };
    if end - mid < 1 {
        return Err(Error::UnexpectedEof);
    }
    let level = buf[mid];
    assert(level == window[mid - pos]);
    let protocol = match Protocol::new(name.as_str(), level) {
        Ok(protocol) => protocol,
        Err(e) => {
            return Err(e);
        },
    };
    if end - mid < 2 {
        return Err(Error::UnexpectedEof);
    }
    let flags = buf[mid + 1];
    assert(flags == window[mid - pos + 1]);
    assert(window.skip(mid - pos + 2) =~= buf@.subrange(mid + 2, end as int));
    let keep_alive = match decode_u16(buf, mid + 2, end) {
        Ok(keep_alive) => keep_alive,
        Err(e) => {
            return Err(e);
        },
    };
    Ok((protocol, flags, keep_alive, mid + 4))
}

/// The will of a CONNECT with these flags at `pos`, and the position
/// behind it.
fn decode_will(flags: u8, buf: &[u8], pos: usize, end: usize) -> (r: Result<
    (Option<LastWill>, usize),
>)
    requires
        pos <= end <= buf@.len(),
    ensures
        match parse_will(flags, buf@.subrange(pos as int, end as int)) {
            Ok((will, n)) => r matches Ok((last_will, next)) && opt_will_view(last_will) == will
                && next == pos + n && next <= end,
            Err(e) => r matches Err(err) && err == e,
        },
{
    let ghost window = buf@.subrange(pos as int, end as int);
    if (flags & 0x04) == 0 {
        return Ok((None, pos));
    }
    let (topic, mid) = match decode_string(buf, pos, end) {
        Ok(found) => found,
        Err(e) => {
            return Err(e);
        },
    };
    assert(window.skip(mid - pos) =~= buf@.subrange(mid as int, end as int));
    let (message, far) = match decode_string(buf, mid, end) {
        Ok(found) => found,
        Err(e) => {
            return Err(e);
        },
    };
    let qos = match QoS::from_u8((flags & 0x18) >> 3) {
        Ok(qos) => qos,
        Err(e) => {
            return Err(e);
        },
    };
    Ok(
        (
            Some(
                LastWill {
                    topic: topic,
                    message: message,
                    qos: qos,
                    retain: (flags & 0x20) != 0,
                },
            ),
            far,
        ),
    )
}

/// The string at `pos` if `present`, and the position behind it.
fn decode_opt_string(present: bool, buf: &[u8], pos: usize, end: usize) -> (r: Result<
    (Option<String>, usize),
>)
    requires
        pos <= end <= buf@.len(),
    ensures
        match parse_opt_string(present, buf@.subrange(pos as int, end as int)) {
            Ok((s, n)) => r matches Ok((string, next)) && opt_string_view(string) == s && next
                == pos + n && next <= end,
            Err(e) => r matches Err(err) && err == e,
        },
{
    if !present {
        return Ok((None, pos));
    }
    match decode_string(buf, pos, end) {
        Ok((string, next)) => Ok((Some(string), next)),
        Err(e) => Err(e),
    }
}

/// Will, username and password of a CONNECT with these flags at `pos`.
fn decode_connect_tail(flags: u8, buf: &[u8], pos: usize, end: usize) -> (r: Result<
    (Option<LastWill>, Option<String>, Option<String>),
>)
    requires
        pos <= end <= buf@.len(),
    ensures
        match parse_connect_tail(flags, buf@.subrange(pos as int, end as int)) {
            Ok((will, user, pass)) => r matches Ok((last_will, username, password))
                && opt_will_view(last_will) == will && opt_string_view(username) == user
                && opt_string_view(password) == pass,
            Err(e) => r matches Err(err) && err == e,
        },
{
    reveal(parse_connect_tail);
    let ghost window = buf@.subrange(pos as int, end as int);
    let (last_will, mid) = match decode_will(flags, buf, pos, end) {
        Ok(found) => found,
        Err(e) => {
            return Err(e);
        },
    };
    assert(window.skip(mid - pos) =~= buf@.subrange(mid as int, end as int));
    let (username, far) = match decode_opt_string((flags & 0x80) != 0, buf, mid, end) {
        Ok(found) => found,
        Err(e) => {
            return Err(e);
        },
    };
    assert(window.skip(far - pos) =~= buf@.subrange(far as int, end as int));
    let (password, _) = match decode_opt_string((flags & 0x40) != 0, buf, far, end) {
        Ok(found) => found,
        Err(e) => {
            return Err(e);
        },
    };
    Ok((last_will, username, password))
}

/// The CONNECT whose body lies from `pos` to `end`.
pub fn decode_connect(buf: &[u8], pos: usize, end: usize) -> (r: Result<Connect>)
    requires
        pos <= end <= buf@.len(),
    ensures
        match parse_connect(buf@.subrange(pos as int, end as int)) {
            Ok(c) => r matches Ok(connect) && connect@ == c,
            Err(e) => r matches Err(err) && err == e,
        },
{
    let ghost window = buf@.subrange(pos as int, end as int);
    let (protocol, flags, keep_alive, mid) = match decode_connect_head(buf, pos, end) {
        Ok(found) => found,
        Err(e) => {
            return Err(e);
        },
    };
    assert(window.skip(mid - pos) =~= buf@.subrange(mid as int, end as int));
    let (client_id, far) = match decode_string(buf, mid, end) {
        Ok(found) => found,
        Err(e) => {
            return Err(e);
        },
    };
    if (flags & 0x01) != 0 || ((flags & 0x04) == 0 && (flags & 0x38) != 0) || ((flags & 0x40) != 0
        && (flags & 0x80) == 0) {
        return Err(Error::IncorrectPacketFormat);
    }
    assert(window.skip(far - pos) =~= buf@.subrange(far as int, end as int));
    let (last_will, username, password) = match decode_connect_tail(flags, buf, far, end) {
        Ok(found) => found,
        Err(e) => {
            return Err(e);
        },
    };
    Ok(
        Connect {
            protocol: protocol,
            keep_alive: keep_alive,
            client_id: client_id,
            clean_session: (flags & 0x02) != 0,
            last_will: last_will,
            username: username,
            password: password,
        },
    )
}

/// The CONNACK whose body lies from `pos` to `end`.
pub fn decode_connack(buf: &[u8], pos: usize, end: usize) -> (r: Result<Connack>)
    requires
        pos <= end <= buf@.len(),
    ensures
        r == parse_connack(buf@.subrange(pos as int, end as int)),
{
    let ghost window = buf@.subrange(pos as int, end as int);
    if end - pos != 2 {
        return Err(Error::PayloadSizeIncorrect);
    }
    let flags = buf[pos];
    let return_code = buf[pos + 1];
    assert(flags == window[0] && return_code == window[1]);
    match ConnectReturnCode::from_u8(return_code) {
        Ok(code) => Ok(Connack { session_present: (flags & 0x01) == 1, code: code }),
        Err(e) => Err(e),
    }
}

/// The PUBLISH whose first byte is `hd` and whose body lies from `pos`
/// to `end`.
pub fn decode_publish(hd: u8, buf: &[u8], pos: usize, end: usize) -> (r: Result<Publish>)
    requires
        pos <= end <= buf@.len(),
    ensures
        match parse_publish(hd, buf@.subrange(pos as int, end as int)) {
            Ok(p) => r matches Ok(publish) && publish@ == p,
            Err(e) => r matches Err(err) && err == e,
        },
{
    let ghost window = buf@.subrange(pos as int, end as int);
    let qos = match QoS::from_hd(hd) {
        Ok(qos) => qos,
        Err(e) => {
            return Err(e);
        },
    };
    let (topic_name, mid) = match decode_string(buf, pos, end) {
        Ok(found) => found,
        Err(e) => {
            return Err(e);
        },
    };
    assert(window.skip(mid - pos) =~= buf@.subrange(mid as int, end as int));
    let (pid, far) = match qos {
        QoS::AtMostOnce => (None, mid),
        _ => {
            match decode_u16(buf, mid, end) {
                Ok(pid) => (Some(PacketIdentifier(pid)), mid + 2),
                Err(e) => {
                    return Err(e);
                },
            }
        },
    };
    assert(window.skip(far - pos) =~= buf@.subrange(far as int, end as int));
    let payload = slice_to_vec(slice_subrange(buf, far, end));
    Ok(
        Publish {
            dup: (hd & 0x08) != 0,
            qos: qos,
            retain: (hd & 0x01) != 0,
            topic_name: topic_name,
            pid: pid,
            payload: Arc::new(payload),
        },
    )
}

/// The packet identifier that is the whole body from `pos` to `end`.
pub fn decode_pid(buf: &[u8], pos: usize, end: usize) -> (r: Result<PacketIdentifier>)
    requires
        pos <= end <= buf@.len(),
    ensures
        r == parse_pid(buf@.subrange(pos as int, end as int)),
{
    if end - pos != 2 {
        return Err(Error::PayloadSizeIncorrect);
    }
    Ok(PacketIdentifier(be_u16(slice_subrange(buf, pos, end))))
}

/// The SUBSCRIBE whose body lies from `pos` to `end`.
pub fn decode_subscribe(buf: &[u8], pos: usize, end: usize) -> (r: Result<Subscribe>)
    requires
        pos <= end <= buf@.len(),
    ensures
        match parse_subscribe(buf@.subrange(pos as int, end as int)) {
            Ok(s) => r matches Ok(subscribe) && subscribe@ == s,
            Err(e) => r matches Err(err) && err == e,
        },
{
    let ghost window = buf@.subrange(pos as int, end as int);
    let pid = match decode_u16(buf, pos, end) {
        Ok(pid) => pid,
        Err(e) => {
            return Err(e);
        },
    };
    let mut topics: Vec<SubscribeTopic> = Vec::new();
    let mut at: usize = pos + 2;
    assert(window.skip(2) =~= buf@.subrange(at as int, end as int));
    assert(Seq::<super::mqtt::SubscribeTopicView>::empty() + topics_view(topics@) =~= topics_view(
        topics@,
    ));
    while at < end
        invariant
            pos + 2 <= at <= end <= buf@.len(),
            window == buf@.subrange(pos as int, end as int),
            window.skip(2) == buf@.subrange(pos + 2, end as int),
            parse_u16(window) == Ok::<u16, Error>(pid),
            parse_subscribe_topics(buf@.subrange(pos + 2, end as int)) == prepend(
                topics_view(topics@),
                parse_subscribe_topics(buf@.subrange(at as int, end as int)),
            ),
        decreases end - at,
    {
        let ghost rest = buf@.subrange(at as int, end as int);
        let ghost done = topics_view(topics@);
        let (topic_path, mid) = match decode_string(buf, at, end) {
            Ok(found) => found,
            Err(e) => {
                return Err(e);
            },
        };
        if end - mid < 1 {
            return Err(Error::UnexpectedEof);
        }
        let requested = buf[mid];
        assert(requested == rest[mid - at]);
        let qos = match QoS::from_u8(requested) {
            Ok(qos) => qos,
            Err(e) => {
                return Err(e);
            },
        };
        let topic = SubscribeTopic { topic_path: topic_path, qos: qos };
        proof {
            let next = parse_subscribe_topics(buf@.subrange(mid + 1, end as int));
            assert(rest.skip(mid + 1 - at) =~= buf@.subrange(mid + 1, end as int));
            assert(parse_subscribe_topics(rest) == prepend(seq![topic@], next));
            assert(topics_view(topics@.push(topic)) =~= done + seq![topic@]);
            if next is Ok {
                assert(done + (seq![topic@] + next->Ok_0) =~= (done + seq![topic@]) + next->Ok_0);
            }
        }
        topics.push(topic);
        at = mid + 1;
    }
    proof {
        assert(topics_view(topics@) + Seq::<super::mqtt::SubscribeTopicView>::empty()
            =~= topics_view(topics@));
    }
    Ok(Subscribe { pid: PacketIdentifier(pid), topics: topics })
}

/// The SUBACK whose body lies from `pos` to `end`.
pub fn decode_suback(buf: &[u8], pos: usize, end: usize) -> (r: Result<Suback>)
    requires
        pos <= end <= buf@.len(),
    ensures
        match parse_suback(buf@.subrange(pos as int, end as int)) {
            Ok(s) => r matches Ok(suback) && suback@ == s,
            Err(e) => r matches Err(err) && err == e,
        },
{
    let ghost window = buf@.subrange(pos as int, end as int);
    let pid = match decode_u16(buf, pos, end) {
        Ok(pid) => pid,
        Err(e) => {
            return Err(e);
        },
    };
    let ghost codes = window.skip(2);
    let mut return_codes: Vec<SubscribeReturnCodes> = Vec::new();
    let mut at: usize = pos + 2;
    while at < end
        invariant
            pos + 2 <= at <= end <= buf@.len(),
            codes == buf@.subrange(pos as int, end as int).skip(2),
            window == buf@.subrange(pos as int, end as int),
            parse_u16(window) == Ok::<u16, Error>(pid),
            return_codes@.len() == at - (pos + 2),
            forall|i: int| 0 <= i < return_codes@.len() ==> return_code_valid(#[trigger] codes[i]),
            forall|i: int|
                0 <= i < return_codes@.len() ==> return_codes@[i] == return_code_of(codes[i]),
        decreases end - at,
    {
        let byte = buf[at];
        assert(byte == codes[at - (pos + 2)]);
        assert((byte & 0x03) <= 3) by (bit_vector);
        if byte >> 7 == 1 {
            return_codes.push(SubscribeReturnCodes::Failure);
        } else {
            match QoS::from_u8(byte & 0x03) {
                Ok(qos) => {
                    return_codes.push(SubscribeReturnCodes::Success(qos));
                },
                Err(e) => {
                    assert(!return_code_valid(codes[at - (pos + 2)]));
                    return Err(e);
                },
            }
        }
        at += 1;
    }
    assert(return_codes@ =~= Seq::new(codes.len(), |i: int| return_code_of(codes[i])));
    Ok(Suback { pid: PacketIdentifier(pid), return_codes: return_codes })
}

/// The UNSUBSCRIBE whose body lies from `pos` to `end`.
pub fn decode_unsubscribe(buf: &[u8], pos: usize, end: usize) -> (r: Result<Unsubscribe>)
    requires
        pos <= end <= buf@.len(),
    ensures
        match parse_unsubscribe(buf@.subrange(pos as int, end as int)) {
            Ok(u) => r matches Ok(unsubscribe) && unsubscribe@ == u,
            Err(e) => r matches Err(err) && err == e,
        },
{
    let ghost window = buf@.subrange(pos as int, end as int);
    let pid = match decode_u16(buf, pos, end) {
        Ok(pid) => pid,
        Err(e) => {
            return Err(e);
        },
    };
    let mut topics: Vec<String> = Vec::new();
    let mut at: usize = pos + 2;
    assert(window.skip(2) =~= buf@.subrange(at as int, end as int));
    assert(Seq::<Seq<char>>::empty() + strings_view(topics@) =~= strings_view(topics@));
    while at < end
        invariant
            pos + 2 <= at <= end <= buf@.len(),
            window == buf@.subrange(pos as int, end as int),
            window.skip(2) == buf@.subrange(pos + 2, end as int),
            parse_u16(window) == Ok::<u16, Error>(pid),
            parse_strings(buf@.subrange(pos + 2, end as int)) == prepend(
                strings_view(topics@),
                parse_strings(buf@.subrange(at as int, end as int)),
            ),
        decreases end - at,
    {
        let ghost rest = buf@.subrange(at as int, end as int);
        let ghost done = strings_view(topics@);
        let (topic, mid) = match decode_string(buf, at, end) {
            Ok(found) => found,
            Err(e) => {
                return Err(e);
            },
        };
        proof {
            let next = parse_strings(buf@.subrange(mid as int, end as int));
            assert(rest.skip(mid - at) =~= buf@.subrange(mid as int, end as int));
            assert(parse_strings(rest) == prepend(seq![topic@], next));
            assert(strings_view(topics@.push(topic)) =~= done + seq![topic@]);
            if next is Ok {
                assert(done + (seq![topic@] + next->Ok_0) =~= (done + seq![topic@]) + next->Ok_0);
            }
        }
        topics.push(topic);
        at = mid;
    }
    proof {
        assert(strings_view(topics@) + Seq::<Seq<char>>::empty() =~= strings_view(topics@));
    }
    Ok(Unsubscribe { pid: PacketIdentifier(pid), topics: topics })
}

/// The packet of type `typ` whose first byte is `hd` and whose body
/// lies from `pos` to `end`.
pub fn decode_body(hd: u8, typ: PacketType, buf: &[u8], pos: usize, end: usize) -> (r: Result<
    Packet,
>)
    requires
        pos <= end <= buf@.len(),
    ensures
        match parse_body(hd, typ, buf@.subrange(pos as int, end as int)) {
            Ok(p) => r matches Ok(packet) && packet@ == p,
            Err(e) => r matches Err(err) && err == e,
        },
{
    reveal(parse_body);
    match typ {
        PacketType::Connect => match decode_connect(buf, pos, end) {
            Ok(connect) => Ok(Packet::Connect(connect)),
            Err(e) => Err(e),
        },
        PacketType::Connack => match decode_connack(buf, pos, end) {
            Ok(connack) => Ok(Packet::Connack(connack)),
            Err(e) => Err(e),
        },
        PacketType::Publish => match decode_publish(hd, buf, pos, end) {
            Ok(publish) => Ok(Packet::Publish(publish)),
            Err(e) => Err(e),
        },
        PacketType::Puback => match decode_pid(buf, pos, end) {
            Ok(pid) => Ok(Packet::Puback(pid)),
            Err(e) => Err(e),
        },
        PacketType::Pubrec => match decode_pid(buf, pos, end) {
            Ok(pid) => Ok(Packet::Pubrec(pid)),
            Err(e) => Err(e),
        },
        PacketType::Pubrel => match decode_pid(buf, pos, end) {
            Ok(pid) => Ok(Packet::Pubrel(pid)),
            Err(e) => Err(e),
        },
        PacketType::Pubcomp => match decode_pid(buf, pos, end) {
            Ok(pid) => Ok(Packet::Pubcomp(pid)),
            Err(e) => Err(e),
        },
        PacketType::Subscribe => match decode_subscribe(buf, pos, end) {
            Ok(subscribe) => Ok(Packet::Subscribe(subscribe)),
            Err(e) => Err(e),
        },
        PacketType::Suback => match decode_suback(buf, pos, end) {
            Ok(suback) => Ok(Packet::Suback(suback)),
            Err(e) => Err(e),
        },
        PacketType::Unsubscribe => match decode_unsubscribe(buf, pos, end) {
            Ok(unsubscribe) => Ok(Packet::Unsubscribe(unsubscribe)),
            Err(e) => Err(e),
        },
        PacketType::Unsuback => match decode_pid(buf, pos, end) {
            Ok(pid) => Ok(Packet::Unsuback(pid)),
            Err(e) => Err(e),
        },
        PacketType::Pingreq => Err(Error::IncorrectPacketFormat),
        PacketType::Pingresp => Err(Error::IncorrectPacketFormat),
        PacketType::Disconnect => Err(Error::UnsupportedPacketType),
    }
}

/// What the fixed header alone decides, if it does.
fn decode_fixed(typ: PacketType, len: usize) -> (r: Option<Result<Packet>>)
    ensures
        match parse_fixed(typ, len as int) {
            Some(Ok(p)) => r matches Some(Ok(packet)) && packet@ == p,
            Some(Err(e)) => r matches Some(Err(err)) && err == e,
            None => r is None,
        },
{
    if len == 0 {
        match typ {
            PacketType::Pingreq => Some(Ok(Packet::Pingreq)),
            PacketType::Pingresp => Some(Ok(Packet::Pingresp)),
            PacketType::Disconnect => Some(Ok(Packet::Disconnect)),
            _ => Some(Err(Error::PayloadRequired)),
        }
    } else {
        match typ {
            PacketType::Connack
            | PacketType::Puback
            | PacketType::Pubrec
            | PacketType::Pubrel
            | PacketType::Pubcomp
            | PacketType::Unsuback => {
                if len != 2 {
                    Some(Err(Error::PayloadSizeIncorrect))
                } else {
                    None
                }
            },
            PacketType::Pingreq | PacketType::Pingresp => Some(Err(Error::IncorrectPacketFormat)),
            PacketType::Disconnect => Some(Err(Error::UnsupportedPacketType)),
            _ => None,
        }
    }
}

/// The packet at `pos`, in the bytes up to `end`, and the position
/// behind it.
pub fn decode_packet(buf: &[u8], pos: usize, end: usize) -> (r: Result<(Packet, usize)>)
    requires
        pos <= end <= buf@.len(),
    ensures
        match parse_packet(buf@.subrange(pos as int, end as int)) {
            Ok((p, n)) => r matches Ok((packet, next)) && packet@ == p && next == pos + n && pos
                < next <= end,
            Err(e) => r matches Err(err) && err == e,
        },
{
    let ghost window = buf@.subrange(pos as int, end as int);
    if end - pos < 1 {
        return Err(Error::UnexpectedEof);
    }
    let hd = buf[pos];
    assert(hd == window[0]);
    assert(window.skip(1) =~= buf@.subrange(pos + 1, end as int));
    let (len, body) = match decode_remaining_length(buf, pos + 1, end) {
        Ok(found) => found,
        Err(e) => {
            return Err(e);
        },
    };
    let header = match Header::new(hd, len) {
        Ok(header) => header,
        Err(e) => {
            return Err(e);
        },
    };
    match decode_fixed(header.typ, len) {
        Some(Ok(packet)) => {
            return Ok((packet, body));
        },
        Some(Err(e)) => {
            return Err(e);
        },
        None => {},
    }
    if end - body < len {
        return Err(Error::UnexpectedEof);
    }
    assert(window.subrange(body - pos, body - pos + len) =~= buf@.subrange(
        body as int,
        body + len,
    ));
    match decode_body(hd, header.typ, buf, body, body + len) {
        Ok(packet) => Ok((packet, body + len)),
        Err(e) => Err(e),
    }
}

/// What a read from a stream does: where `parsed` is a value and the
/// number of bytes it takes, the value is returned and the bytes are
/// gone from the stream; where it is an error, the error is returned
/// and the stream is as it was.
pub open spec fn reads<T: View>(
    r: Result<T>,
    before: Seq<u8>,
    after: Seq<u8>,
    parsed: Result<(T::V, int)>,
) -> bool {
    match parsed {
        Ok((v, n)) => r is Ok && r->Ok_0@ == v && after == before.skip(n),
        Err(e) => r is Err && r->Err_0 == e && after == before,
    }
}

/// A body of `len` bytes at the front of `unread`, read as `parse`
/// says: the end of the data if there are fewer bytes, else what
/// `parse` makes of them, with all `len` bytes taken.
pub open spec fn framed<V>(
    unread: Seq<u8>,
    len: usize,
    parse: spec_fn(Seq<u8>) -> Result<V>,
) -> Result<(V, int)> {
    if unread.len() < len {
        Err(Error::UnexpectedEof)
    } else {
        match parse(unread.take(len as int)) {
            Ok(v) => Ok((v, len as int)),
            Err(e) => Err(e),
        }
    }
}

/// The next `len` bytes of `unread`, if there are as many.
pub open spec fn parse_payload(unread: Seq<u8>, len: usize) -> Result<(Seq<u8>, int)> {
    if unread.len() < len {
        Err(Error::UnexpectedEof)
    } else {
        Ok((unread.take(len as int), len as int))
    }
}

/// The remaining length at the front of `unread`, as a machine integer.
pub open spec fn parse_length(unread: Seq<u8>) -> Result<(usize, int)> {
    match parse_remaining_length(unread) {
        Ok((len, n)) => Ok((len as usize, n)),
        Err(e) => Err(e),
    }
}

/// Something that packets are read from.
///
/// Every method reads from the front of what is unread. A method that
/// takes a header reads the body that the header announces: its
/// remaining length says how many bytes the body has.
pub trait MqttRead {
    /// The bytes that were not read yet.
    spec fn unread(&self) -> Seq<u8>;

    fn read_packet(&mut self) -> (r: Result<Packet>)
        ensures
            reads(r, old(self).unread(), final(self).unread(), parse_packet(old(self).unread())),
    ;

    fn read_connect(&mut self, header: Header) -> (r: Result<Connect>)
        ensures
            reads(
                r,
                old(self).unread(),
                final(self).unread(),
                framed(old(self).unread(), header.len, |s: Seq<u8>| parse_connect(s)),
            ),
    ;

    fn read_connack(&mut self, header: Header) -> (r: Result<Connack>)
        ensures
            reads(
                r,
                old(self).unread(),
                final(self).unread(),
                framed(old(self).unread(), header.len, |s: Seq<u8>| parse_connack(s)),
            ),
    ;

    /// The header must be that of a PUBLISH: on another packet the bits
    /// that hold the tier mean nothing.
    fn read_publish(&mut self, header: Header) -> (r: Result<Publish>)
        requires
            header.typ == PacketType::Publish,
        ensures
            reads(
                r,
                old(self).unread(),
                final(self).unread(),
                framed(old(self).unread(), header.len, |s: Seq<u8>| parse_publish(header.hd, s)),
            ),
    ;

    fn read_subscribe(&mut self, header: Header) -> (r: Result<Subscribe>)
        ensures
            reads(
                r,
                old(self).unread(),
                final(self).unread(),
                framed(old(self).unread(), header.len, |s: Seq<u8>| parse_subscribe(s)),
            ),
    ;

    fn read_suback(&mut self, header: Header) -> (r: Result<Suback>)
        ensures
            reads(
                r,
                old(self).unread(),
                final(self).unread(),
                framed(old(self).unread(), header.len, |s: Seq<u8>| parse_suback(s)),
            ),
    ;

    fn read_unsubscribe(&mut self, header: Header) -> (r: Result<Unsubscribe>)
        ensures
            reads(
                r,
                old(self).unread(),
                final(self).unread(),
                framed(old(self).unread(), header.len, |s: Seq<u8>| parse_unsubscribe(s)),
            ),
    ;

    fn read_payload(&mut self, len: usize) -> (r: Result<Vec<u8>>)
        ensures
            reads(
                r,
                old(self).unread(),
                final(self).unread(),
                parse_payload(old(self).unread(), len),
            ),
    ;

    fn read_mqtt_string(&mut self) -> (r: Result<String>)
        ensures
            reads(r, old(self).unread(), final(self).unread(), parse_string(old(self).unread())),
    ;

    fn read_remaining_length(&mut self) -> (r: Result<usize>)
        ensures
            reads(r, old(self).unread(), final(self).unread(), parse_length(old(self).unread())),
    ;
}

} // verus!
