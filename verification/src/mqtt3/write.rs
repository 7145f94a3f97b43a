//! The encoder: packets to bytes.
use byteorder::{BigEndian, ByteOrder};
use vstd::prelude::*;

use super::error::{Error, Result};
use super::mqtt::{
    strings_view, topics_view, Connack, Connect, Packet, Publish, Suback, Subscribe,
    SubscribeReturnCodes, Unsubscribe,
};
use super::wire::{
    bit, connack_body, connect_body, connect_flags, connect_head_bytes, connect_tail_bytes,
    first_byte, flag_bits,
    lemma_strings_bytes_push, lemma_subscribe_topics_bytes_push, max_remaining_length,
    opt_string_bytes, packet_body, packet_bytes, publish_body, publish_head, publish_pid_bytes,
    remaining_length_bytes, return_code_byte, return_codes_bytes, string_bytes, strings_bytes,
    suback_body, subscribe_body, subscribe_topic_bytes, subscribe_topics_bytes, u16_bytes,
    unsubscribe_body, will_bytes,
};
use super::{opt_string_view, QoS, MAX_PAYLOAD_SIZE};

verus! {

/// The two bytes of a 16-bit number, high byte first.
///
/// Calls `byteorder::BigEndian::write_u16` on a buffer of two bytes, which
/// stores the number in big-endian order.
#[verifier::external_body]
fn be_bytes(n: u16) -> (bytes: [u8; 2])
    ensures
        bytes@ == u16_bytes(n),
{
    let mut bytes = [0u8; 2];
    BigEndian::write_u16(&mut bytes, n);
    bytes
}

/// Appends a 16-bit number, high byte first.
pub fn put_u16(out: &mut Vec<u8>, n: u16)
    ensures
        final(out)@ == old(out)@ + u16_bytes(n),
{
    let bytes = be_bytes(n);
    out.push(bytes[0]);
    out.push(bytes[1]);
    assert(out@ =~= old(out)@ + u16_bytes(n));
}

/// Appends a string behind its 16-bit length.
pub fn put_string(out: &mut Vec<u8>, string: &str)
    ensures
        final(out)@ == old(out)@ + string_bytes(string@),
{
    let bytes = string.as_bytes();
    put_u16(out, (bytes.len() % 65536) as u16);
    out.extend_from_slice(bytes);
    assert(out@ =~= old(out)@ + string_bytes(string@));
}

/// Appends a string behind its 16-bit length, if there is one.
fn put_opt_string(out: &mut Vec<u8>, string: &Option<String>)
    ensures
        final(out)@ == old(out)@ + opt_string_bytes(opt_string_view(*string)),
{
    match string {
        Some(s) => {
            put_string(out, s.as_str());
        },
        None => {
            assert(out@ =~= old(out)@ + Seq::<u8>::empty());
        },
    }
}

/// The connect flags of a CONNECT.
fn connect_flags_of(connect: &Connect) -> (flags: u8)
    ensures
        flags == connect_flags(connect@),
{
    let mut flags: u8 = 0;
    if connect.clean_session {
        flags = flags | 0x02;
    }
    if let Some(last_will) = &connect.last_will {
        flags = flags | 0x04;
        flags = flags | (last_will.qos.to_u8() << 3);
        if last_will.retain {
            flags = flags | 0x20;
        }
    }
    if connect.password.is_some() {
        flags = flags | 0x40;
    }
    if connect.username.is_some() {
        flags = flags | 0x80;
    }
    proof {
        let c = connect.clean_session;
        let w = connect.last_will is Some;
        let q: u8 = if w { connect.last_will->Some_0.qos.spec_to_u8() } else { 0 };
        let r = w && connect.last_will->Some_0.retain;
        let p = connect.password is Some;
        let u = connect.username is Some;
        let c2: u8 = bit(c, 0x02);
        let w4: u8 = bit(w, 0x04);
        let r20: u8 = bit(r, 0x20);
        let p40: u8 = bit(p, 0x40);
        let u80: u8 = bit(u, 0x80);
        assert(flags == ((((((0u8 | c2) | w4) | (q << 3)) | r20) | p40) | u80)) by {
            assert(forall|x: u8| #[trigger] (x | 0u8) == x) by (bit_vector);
            assert(0u8 << 3 == 0u8) by (bit_vector);
        }
        assert(((((((0u8 | c2) | w4) | (q << 3)) | r20) | p40) | u80) == (c2 | w4 | (q << 3) | r20
            | p40 | u80)) by (bit_vector);
        assert(connect_flags(connect@) == flag_bits(c, w, q, r, p, u));
    }
    flags
}

/// The body of a CONNECT.
fn encode_connect(connect: &Connect) -> (body: Vec<u8>)
    ensures
        body@ == connect_body(connect@),
{
    let mut body: Vec<u8> = Vec::new();
    put_string(&mut body, connect.protocol.name());
    body.push(connect.protocol.level());
    body.push(connect_flags_of(connect));
    put_u16(&mut body, connect.keep_alive);
    put_string(&mut body, connect.client_id.as_str());
    let ghost before_will = body@;
    if let Some(last_will) = &connect.last_will {
        put_string(&mut body, last_will.topic.as_str());
        put_string(&mut body, last_will.message.as_str());
    }
    assert(body@ =~= before_will + will_bytes(connect@.last_will));
    put_opt_string(&mut body, &connect.username);
    put_opt_string(&mut body, &connect.password);
    assert(body@ =~= connect_head_bytes(
        connect.protocol,
        connect_flags(connect@),
        connect.keep_alive,
    ) + string_bytes(connect.client_id@) + connect_tail_bytes(connect@));
    body
}

/// The body of a CONNACK.
fn encode_connack(connack: &Connack) -> (body: Vec<u8>)
    ensures
        body@ == connack_body(*connack),
{
    let mut body: Vec<u8> = Vec::new();
    body.push(if connack.session_present { 0x01 } else { 0x00 });
    body.push(connack.code.to_u8());
    assert(body@ =~= connack_body(*connack));
    body
}

/// What stands before the payload of a PUBLISH.
fn encode_publish_head(publish: &Publish) -> (head: Vec<u8>)
    ensures
        head@ == publish_head(publish@),
{
    let mut head: Vec<u8> = Vec::new();
    put_string(&mut head, publish.topic_name.as_str());
    let ghost before_pid = head@;
    match publish.qos {
        QoS::AtMostOnce => {},
        _ => {
            if let Some(pid) = publish.pid {
                put_u16(&mut head, pid.0);
            }
        },
    }
    assert(head@ =~= before_pid + publish_pid_bytes(publish@));
    head
}

/// The body of a PUBLISH.
fn encode_publish(publish: &Publish) -> (body: Vec<u8>)
    ensures
        body@ == publish_body(publish@),
{
    let mut body = encode_publish_head(publish);
    body.extend_from_slice(publish.payload.as_slice());
    body
}

/// Whether a PUBLISH with this head and this payload fits the
/// remaining-length field.
fn publish_fits(head: &Vec<u8>, payload: &[u8]) -> (fits: bool)
    ensures
        fits == (head@.len() + payload@.len() <= max_remaining_length()),
{
    payload.len() <= MAX_PAYLOAD_SIZE && head.len() <= MAX_PAYLOAD_SIZE - payload.len()
}

/// The body of a packet that holds a packet identifier and no more.
fn encode_pid(pid: u16) -> (body: Vec<u8>)
    ensures
        body@ == u16_bytes(pid),
{
    let mut body: Vec<u8> = Vec::new();
    put_u16(&mut body, pid);
    assert(body@ =~= u16_bytes(pid));
    body
}

/// The body of a SUBSCRIBE.
fn encode_subscribe(subscribe: &Subscribe) -> (body: Vec<u8>)
    ensures
        body@ == subscribe_body(subscribe@),
{
    let mut body: Vec<u8> = Vec::new();
    put_u16(&mut body, subscribe.pid.0);
    let ghost topics = topics_view(subscribe.topics@);
    let mut i: usize = 0;
    assert(body@ =~= u16_bytes(subscribe.pid.0) + subscribe_topics_bytes(topics.take(0)));
    while i < subscribe.topics.len()
        invariant
            i <= subscribe.topics@.len(),
            topics == topics_view(subscribe.topics@),
            body@ == u16_bytes(subscribe.pid.0) + subscribe_topics_bytes(topics.take(i as int)),
        decreases subscribe.topics@.len() - i,
    {
        let topic = &subscribe.topics[i];
        let ghost before = body@;
        put_string(&mut body, topic.topic_path.as_str());
        body.push(topic.qos.to_u8());
        proof {
            lemma_subscribe_topics_bytes_push(topics.take(i as int), topics[i as int]);
            assert(topics.take(i + 1) =~= topics.take(i as int).push(topics[i as int]));
            assert(body@ =~= before + subscribe_topic_bytes(topics[i as int]));
            assert(body@ =~= u16_bytes(subscribe.pid.0) + subscribe_topics_bytes(
                topics.take(i + 1),
            ));
        }
        i += 1;
    }
    assert(topics.take(i as int) =~= topics);
    body
}

/// The byte of a return code.
fn return_code_to_u8(code: SubscribeReturnCodes) -> (byte: u8)
    ensures
        byte == return_code_byte(code),
{
    match code {
        SubscribeReturnCodes::Success(qos) => qos.to_u8(),
        SubscribeReturnCodes::Failure => 0x80,
    }
}

/// The body of a SUBACK.
fn encode_suback(suback: &Suback) -> (body: Vec<u8>)
    ensures
        body@ == suback_body(suback@),
{
    let mut body: Vec<u8> = Vec::new();
    put_u16(&mut body, suback.pid.0);
    let mut i: usize = 0;
    while i < suback.return_codes.len()
        invariant
            i <= suback.return_codes@.len(),
            body@.len() == 2 + i,
            body@.take(2) == u16_bytes(suback.pid.0),
            forall|j: int| 0 <= j < i ==> body@[2 + j] == return_code_byte(suback.return_codes@[j]),
        decreases suback.return_codes@.len() - i,
    {
        let ghost before = body@;
        body.push(return_code_to_u8(suback.return_codes[i]));
        assert(body@.take(2) =~= before.take(2));
        i += 1;
    }
    assert(body@ =~= body@.take(2) + return_codes_bytes(suback.return_codes@));
    body
}

/// The body of an UNSUBSCRIBE.
fn encode_unsubscribe(unsubscribe: &Unsubscribe) -> (body: Vec<u8>)
    ensures
        body@ == unsubscribe_body(unsubscribe@),
{
    let mut body: Vec<u8> = Vec::new();
    put_u16(&mut body, unsubscribe.pid.0);
    let ghost topics = strings_view(unsubscribe.topics@);
    let mut i: usize = 0;
    assert(body@ =~= u16_bytes(unsubscribe.pid.0) + strings_bytes(topics.take(0)));
    while i < unsubscribe.topics.len()
        invariant
            i <= unsubscribe.topics@.len(),
            topics == strings_view(unsubscribe.topics@),
            body@ == u16_bytes(unsubscribe.pid.0) + strings_bytes(topics.take(i as int)),
        decreases unsubscribe.topics@.len() - i,
    {
        let ghost before = body@;
        put_string(&mut body, unsubscribe.topics[i].as_str());
        proof {
            lemma_strings_bytes_push(topics.take(i as int), topics[i as int]);
            assert(topics.take(i + 1) =~= topics.take(i as int).push(topics[i as int]));
            assert(body@ =~= u16_bytes(unsubscribe.pid.0) + strings_bytes(topics.take(i + 1)));
        }
        i += 1;
    }
    assert(topics.take(i as int) =~= topics);
    body
}

/// The first byte of a packet.
pub fn header_byte(packet: &Packet) -> (hd: u8)
    ensures
        hd == first_byte(packet@),
{
    match packet {
        Packet::Connect(_) => 0x10,
        Packet::Connack(_) => 0x20,
        Packet::Publish(publish) => {
            let retain: u8 = if publish.retain { 0x01 } else { 0 };
            let dup: u8 = if publish.dup { 0x08 } else { 0 };
            0x30 | retain | (publish.qos.to_u8() << 1) | dup
        },
        Packet::Puback(_) => 0x40,
        Packet::Pubrec(_) => 0x50,
        Packet::Pubrel(_) => 0x62,
        Packet::Pubcomp(_) => 0x70,
        Packet::Subscribe(_) => 0x82,
        Packet::Suback(_) => 0x90,
        Packet::Unsubscribe(_) => 0xA2,
        Packet::Unsuback(_) => 0xB0,
        Packet::Pingreq => 0xC0,
        Packet::Pingresp => 0xD0,
        Packet::Disconnect => 0xE0,
    }
}

/// What follows the fixed header of a packet.
pub fn encode_body(packet: &Packet) -> (body: Vec<u8>)
    ensures
        body@ == packet_body(packet@),
{
    match packet {
        Packet::Connect(connect) => encode_connect(connect),
        Packet::Connack(connack) => encode_connack(connack),
        Packet::Publish(publish) => encode_publish(publish),
        Packet::Puback(pid) => encode_pid(pid.0),
        Packet::Pubrec(pid) => encode_pid(pid.0),
        Packet::Pubrel(pid) => encode_pid(pid.0),
        Packet::Pubcomp(pid) => encode_pid(pid.0),
        Packet::Subscribe(subscribe) => encode_subscribe(subscribe),
        Packet::Suback(suback) => encode_suback(suback),
        Packet::Unsubscribe(unsubscribe) => encode_unsubscribe(unsubscribe),
        Packet::Unsuback(pid) => encode_pid(pid.0),
        Packet::Pingreq => Vec::new(),
        Packet::Pingresp => Vec::new(),
        Packet::Disconnect => Vec::new(),
    }
}

/// Whether the body of a packet fits the remaining-length field, so
/// that the packet can be written.
pub fn fits(packet: &Packet) -> (fits: bool)
    ensures
        fits == (packet_body(packet@).len() <= max_remaining_length()),
{
    match packet {
        Packet::Publish(publish) => {
            let head = encode_publish_head(publish);
            publish_fits(&head, publish.payload.as_slice())
        },
        _ => encode_body(packet).len() <= MAX_PAYLOAD_SIZE,
    }
}

/// Something that packets are written to.
pub trait MqttWrite {
    /// All that was written, in order.
    spec fn written(&self) -> Seq<u8>;

    /// Writes a packet whole, or nothing where its body is longer than
    /// the remaining-length field can say.
    fn write_packet(&mut self, packet: &Packet) -> (r: Result<()>)
        ensures
            match r {
                Ok(_) => {
                    &&& packet_body(packet@).len() <= max_remaining_length()
                    &&& final(self).written() == old(self).written() + packet_bytes(packet@)
                },
                Err(e) => {
                    &&& e == Error::PayloadTooLong
                    &&& packet_body(packet@).len() > max_remaining_length()
                    &&& final(self).written() == old(self).written()
                },
            },
    ;

    /// Writes a string behind its 16-bit length.
    fn write_mqtt_string(&mut self, string: &str) -> (r: Result<()>)
        ensures
            r is Ok,
            final(self).written() == old(self).written() + string_bytes(string@),
    ;

    /// Writes a remaining length, or nothing where it is above the
    /// largest one.
    fn write_remaining_length(&mut self, len: usize) -> (r: Result<()>)
        ensures
            match r {
                Ok(_) => {
                    &&& len <= max_remaining_length()
                    &&& final(self).written() == old(self).written() + remaining_length_bytes(
                        len as nat,
                    )
                },
                Err(e) => {
                    &&& e == Error::PayloadTooLong
                    &&& len > max_remaining_length()
                    &&& final(self).written() == old(self).written()
                },
            },
    ;
}

impl MqttWrite for Vec<u8> {
    open spec fn written(&self) -> Seq<u8> {
        self@
    }

    fn write_packet(&mut self, packet: &Packet) -> (r: Result<()>) {
        match packet {
            Packet::Publish(publish) => {
                // the payload goes from the packet to the stream, with no stop between
                let head = encode_publish_head(publish);
                let payload = publish.payload.as_slice();
                if !publish_fits(&head, payload) {
                    return Err(Error::PayloadTooLong);
                }
                self.push(header_byte(packet));
                let _ = self.write_remaining_length(head.len() + payload.len());
                self.extend_from_slice(head.as_slice());
                self.extend_from_slice(payload);
            },
            _ => {
                let body = encode_body(packet);
                if body.len() > MAX_PAYLOAD_SIZE {
                    return Err(Error::PayloadTooLong);
                }
                self.push(header_byte(packet));
                let _ = self.write_remaining_length(body.len());
                self.extend_from_slice(body.as_slice());
            },
        }
        assert(self@ =~= old(self)@ + packet_bytes(packet@));
        Ok(())
    }

    fn write_mqtt_string(&mut self, string: &str) -> (r: Result<()>) {
        put_string(self, string);
        Ok(())
    }

    fn write_remaining_length(&mut self, len: usize) -> (r: Result<()>) {
        if len > MAX_PAYLOAD_SIZE {
            return Err(Error::PayloadTooLong);
        }
        let mut x: usize = len;
        let ghost mut prefix: Seq<u8> = Seq::empty();
        assert(self@ =~= old(self)@ + prefix);
        assert(remaining_length_bytes(len as nat) =~= prefix + remaining_length_bytes(x as nat));
        while x >= 128
            invariant
                self@ == old(self)@ + prefix,
                remaining_length_bytes(len as nat) == prefix + remaining_length_bytes(x as nat),
            decreases x,
        {
            let byte: u8 = (x % 128) as u8 + 128;
            self.push(byte);
            proof {
                let rest = remaining_length_bytes((x / 128) as nat);
                assert(remaining_length_bytes(x as nat) == seq![byte] + rest);
                assert(prefix + (seq![byte] + rest) =~= prefix.push(byte) + rest);
                assert(self@ =~= old(self)@ + prefix.push(byte));
                prefix = prefix.push(byte);
            }
            x = x / 128;
        }
        self.push(x as u8);
        proof {
            assert(remaining_length_bytes(x as nat) == seq![x as u8]);
            assert(self@ =~= old(self)@ + (prefix + seq![x as u8]));
        }
        Ok(())
    }
}

} // verus!
