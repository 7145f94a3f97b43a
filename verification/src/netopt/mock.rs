//! A stream in memory: bytes to be read, and the bytes that were written.
use vstd::prelude::*;
use crate::mqtt3::error::{Error, Result};
use crate::mqtt3::mqtt::{Connack, Connect, Packet, Publish, Suback, Subscribe, Unsubscribe};
use crate::mqtt3::read::{
    decode_connack, decode_connect, decode_packet, decode_publish, decode_remaining_length,
    decode_string, decode_suback, decode_subscribe, decode_unsubscribe, MqttRead,
};
use crate::mqtt3::write::MqttWrite;
use crate::mqtt3::Header;

verus! {

/// A stream in memory. Reading takes bytes from the data it was given;
/// writing collects bytes until they are drained.
#[derive(Debug)]
pub struct MockStream {
    peer_addr: String,
    read_data: Vec<u8>,
    write_data: Vec<u8>,
    read_idx: usize,
}

impl MockStream {
    /// The address of the peer.
    pub closed spec fn spec_peer_addr(&self) -> Seq<char> {
        self.peer_addr@
    }

    /// All the data to be read, read or not.
    pub closed spec fn read_data(&self) -> Seq<u8> {
        self.read_data@
    }

    /// The number of bytes that were read.
    pub closed spec fn read_idx(&self) -> int {
        self.read_idx as int
    }

    /// The bytes that were written and not drained.
    pub closed spec fn write_data(&self) -> Seq<u8> {
        self.write_data@
    }

    /// The bytes that are still to be read.
    pub open spec fn unread(&self) -> Seq<u8> {
        if self.read_idx() <= self.read_data().len() {
            self.read_data().skip(self.read_idx())
        } else {
            Seq::empty()
        }
    }

    /// A stream with nothing to read.
    pub fn new(peer_addr: &str) -> (stream: MockStream)
        ensures
            stream.spec_peer_addr() == peer_addr@,
            stream.read_data() == Seq::<u8>::empty(),
            stream.read_idx() == 0,
            stream.write_data() == Seq::<u8>::empty(),
    {
        MockStream {
            peer_addr: peer_addr.to_owned(),
            read_data: Vec::new(),
            write_data: Vec::new(),
            read_idx: 0,
        }
    }

    /// A stream with `read_data` to read.
    pub fn with_read_data(peer_addr: &str, read_data: Vec<u8>) -> (stream: MockStream)
        ensures
            stream.spec_peer_addr() == peer_addr@,
            stream.read_data() == read_data@,
            stream.read_idx() == 0,
            stream.write_data() == Seq::<u8>::empty(),
    {
        MockStream {
            peer_addr: peer_addr.to_owned(),
            read_data: read_data,
            write_data: Vec::new(),
            read_idx: 0,
        }
    }

    /// The address of the peer.
    pub fn peer_addr(&self) -> (addr: String)
        ensures
            addr@ == self.spec_peer_addr(),
    {
        self.peer_addr.clone()
    }

    /// Takes out all that was written.
    pub fn drain_write_data(&mut self) -> (data: Vec<u8>)
        ensures
            data@ == old(self).write_data(),
            final(self).write_data() == Seq::<u8>::empty(),
            final(self).read_data() == old(self).read_data(),
            final(self).read_idx() == old(self).read_idx(),
            final(self).spec_peer_addr() == old(self).spec_peer_addr(),
    {
        let mut data: Vec<u8> = Vec::new();
        core::mem::swap(&mut self.write_data, &mut data);
        data
    }

    /// Gives the stream new data to read, from its start, and returns
    /// the data it had.
    pub fn replace_read_data(&mut self, read_data: Vec<u8>) -> (data: Vec<u8>)
        ensures
            data@ == old(self).read_data(),
            final(self).read_data() == read_data@,
            final(self).read_idx() == 0,
            final(self).write_data() == old(self).write_data(),
            final(self).spec_peer_addr() == old(self).spec_peer_addr(),
    {
        let mut data = read_data;
        self.read_idx = 0;
        core::mem::swap(&mut self.read_data, &mut data);
        data
    }

    /// Appends data to read behind what is there, read or not.
    pub fn feed(&mut self, data: &[u8])
        ensures
            final(self).read_data() == old(self).read_data() + data@,
            final(self).read_idx() == old(self).read_idx(),
            final(self).write_data() == old(self).write_data(),
            final(self).spec_peer_addr() == old(self).spec_peer_addr(),
    {
        self.read_data.extend_from_slice(data);
    }

    /// What was written becomes what is read, from its start, and the
    /// other way round.
    pub fn swap_data(&mut self)
        ensures
            final(self).read_data() == old(self).write_data(),
            final(self).write_data() == old(self).read_data(),
            final(self).read_idx() == 0,
            final(self).spec_peer_addr() == old(self).spec_peer_addr(),
    {
        self.read_idx = 0;
        core::mem::swap(&mut self.read_data, &mut self.write_data);
    }

    /// Writes all of `msg`, and returns its length.
    pub fn write(&mut self, msg: &[u8]) -> (n: usize)
        ensures
            n == msg@.len(),
            final(self).write_data() == old(self).write_data() + msg@,
            final(self).read_data() == old(self).read_data(),
            final(self).read_idx() == old(self).read_idx(),
            final(self).spec_peer_addr() == old(self).spec_peer_addr(),
    {
        self.write_data.extend_from_slice(msg);
        msg.len()
    }

    /// Reads up to `max` bytes: as many as are left, if fewer.
    pub fn read(&mut self, max: usize) -> (data: Vec<u8>)
        ensures
            data@ == old(self).unread().take(
                if max <= old(self).unread().len() {
                    max as int
                } else {
                    old(self).unread().len() as int
                },
            ),
            final(self).unread() == old(self).unread().skip(data@.len() as int),
            final(self).read_data() == old(self).read_data(),
            final(self).write_data() == old(self).write_data(),
            final(self).spec_peer_addr() == old(self).spec_peer_addr(),
    {
        if self.read_idx > self.read_data.len() {
            assert(Seq::<u8>::empty().take(0) =~= Seq::<u8>::empty());
            assert(Seq::<u8>::empty().skip(0) =~= Seq::<u8>::empty());
            return Vec::new();
        }
        let left = self.read_data.len() - self.read_idx;
        let len = if max <= left { max } else { left };
        let start = self.read_idx;
        let data = vstd::slice::slice_to_vec(
            vstd::slice::slice_subrange(self.read_data.as_slice(), start, start + len),
        );
        self.read_idx = start + len;
        assert(data@ =~= old(self).unread().take(len as int));
        assert(self.unread() =~= old(self).unread().skip(len as int));
        data
    }

    /// Reads all that is left into `buf`, and returns how much it was.
    pub fn read_to_end(&mut self, buf: &mut Vec<u8>) -> (n: usize)
        ensures
            n == old(self).unread().len(),
            final(buf)@ == old(buf)@ + old(self).unread(),
            final(self).unread() == Seq::<u8>::empty(),
            final(self).read_data() == old(self).read_data(),
            final(self).write_data() == old(self).write_data(),
            final(self).spec_peer_addr() == old(self).spec_peer_addr(),
    {
        if self.read_idx > self.read_data.len() {
            assert(buf@ =~= old(buf)@ + Seq::<u8>::empty());
            return 0;
        }
        let start = self.read_idx;
        let end = self.read_data.len();
        buf.extend_from_slice(vstd::slice::slice_subrange(self.read_data.as_slice(), start, end));
        self.read_idx = end;
        assert(old(self).unread() =~= old(self).read_data().subrange(start as int, end as int));
        assert(self.unread() =~= Seq::<u8>::empty());
        end - start
    }
}

impl MockStream {
    /// Where a body of `len` unread bytes starts and ends, if there
    /// are as many.
    fn frame(&self, len: usize) -> (r: Option<(usize, usize)>)
        ensures
            match r {
                Some((start, end)) => {
                    &&& self.unread().len() >= len
                    &&& start <= end <= self.read_data().len()
                    &&& end == start + len
                    &&& self.unread() == self.read_data().skip(start as int)
                    &&& self.unread().take(len as int) == self.read_data().subrange(
                        start as int,
                        end as int,
                    )
                },
                None => self.unread().len() < len,
            },
    {
        let total = self.read_data.len();
        let start = if self.read_idx <= total { self.read_idx } else { total };
        assert(self.unread() =~= self.read_data().skip(start as int));
        if total - start < len {
            return None;
        }
        assert(self.unread().take(len as int) =~= self.read_data().subrange(
            start as int,
            start + len,
        ));
        Some((start, start + len))
    }

    /// Passes over the unread bytes before `next`.
    fn advance(&mut self, next: usize)
        requires
            next <= old(self).read_data().len(),
        ensures
            final(self).unread() == old(self).read_data().skip(next as int),
            final(self).read_data() == old(self).read_data(),
            final(self).read_idx() == next,
            final(self).write_data() == old(self).write_data(),
            final(self).spec_peer_addr() == old(self).spec_peer_addr(),
    {
        self.read_idx = next;
    }
}

impl MqttRead for MockStream {
    open spec fn unread(&self) -> Seq<u8> {
        MockStream::unread(self)
    }

    fn read_packet(&mut self) -> (r: Result<Packet>)
        ensures
            final(self).read_data() == old(self).read_data(),
            final(self).write_data() == old(self).write_data(),
    {
        let (start, end) = match self.frame(0) {
            Some((start, _)) => (start, self.read_data.len()),
            None => {
                return Err(Error::UnexpectedEof);
            },
        };
        assert(self.unread() =~= self.read_data().subrange(start as int, end as int));
        match decode_packet(self.read_data.as_slice(), start, end) {
            Ok((packet, next)) => {
                proof {
                    let data = self.read_data();
                    assert(data.skip(start as int).skip(next - start) =~= data.skip(next as int));
                }
                self.advance(next);
                Ok(packet)
            },
            Err(e) => Err(e),
        }
    }

    fn read_connect(&mut self, header: Header) -> (r: Result<Connect>) {
        let (start, end) = match self.frame(header.len) {
            Some(found) => found,
            None => {
                return Err(Error::UnexpectedEof);
            },
        };
        match decode_connect(self.read_data.as_slice(), start, end) {
            Ok(connect) => {
                proof {
                    let data = self.read_data();
                    assert(data.skip(start as int).skip(header.len as int) =~= data.skip(
                        end as int,
                    ));
                }
                self.advance(end);
                Ok(connect)
            },
            Err(e) => Err(e),
        }
    }

    fn read_connack(&mut self, header: Header) -> (r: Result<Connack>) {
        let (start, end) = match self.frame(header.len) {
            Some(found) => found,
            None => {
                return Err(Error::UnexpectedEof);
            },
        };
        match decode_connack(self.read_data.as_slice(), start, end) {
            Ok(connack) => {
                proof {
                    let data = self.read_data();
                    assert(data.skip(start as int).skip(header.len as int) =~= data.skip(
                        end as int,
                    ));
                }
                self.advance(end);
                Ok(connack)
            },
            Err(e) => Err(e),
        }
    }

    fn read_publish(&mut self, header: Header) -> (r: Result<Publish>) {
        let (start, end) = match self.frame(header.len) {
            Some(found) => found,
            None => {
                return Err(Error::UnexpectedEof);
            },
        };
        match decode_publish(header.hd, self.read_data.as_slice(), start, end) {
            Ok(publish) => {
                proof {
                    let data = self.read_data();
                    assert(data.skip(start as int).skip(header.len as int) =~= data.skip(
                        end as int,
                    ));
                }
                self.advance(end);
                Ok(publish)
            },
            Err(e) => Err(e),
        }
    }

    fn read_subscribe(&mut self, header: Header) -> (r: Result<Subscribe>) {
        let (start, end) = match self.frame(header.len) {
            Some(found) => found,
            None => {
                return Err(Error::UnexpectedEof);
            },
        };
        match decode_subscribe(self.read_data.as_slice(), start, end) {
            Ok(subscribe) => {
                proof {
                    let data = self.read_data();
                    assert(data.skip(start as int).skip(header.len as int) =~= data.skip(
                        end as int,
                    ));
                }
                self.advance(end);
                Ok(subscribe)
            },
            Err(e) => Err(e),
        }
    }

    fn read_suback(&mut self, header: Header) -> (r: Result<Suback>) {
        let (start, end) = match self.frame(header.len) {
            Some(found) => found,
            None => {
                return Err(Error::UnexpectedEof);
            },
        };
        match decode_suback(self.read_data.as_slice(), start, end) {
            Ok(suback) => {
                proof {
                    let data = self.read_data();
                    assert(data.skip(start as int).skip(header.len as int) =~= data.skip(
                        end as int,
                    ));
                }
                self.advance(end);
                Ok(suback)
            },
            Err(e) => Err(e),
        }
    }

    fn read_unsubscribe(&mut self, header: Header) -> (r: Result<Unsubscribe>) {
        let (start, end) = match self.frame(header.len) {
            Some(found) => found,
            None => {
                return Err(Error::UnexpectedEof);
            },
        };
        match decode_unsubscribe(self.read_data.as_slice(), start, end) {
            Ok(unsubscribe) => {
                proof {
                    let data = self.read_data();
                    assert(data.skip(start as int).skip(header.len as int) =~= data.skip(
                        end as int,
                    ));
                }
                self.advance(end);
                Ok(unsubscribe)
            },
            Err(e) => Err(e),
        }
    }

    fn read_payload(&mut self, len: usize) -> (r: Result<Vec<u8>>) {
        let (start, end) = match self.frame(len) {
            Some(found) => found,
            None => {
                return Err(Error::UnexpectedEof);
            },
        };
        let payload = vstd::slice::slice_to_vec(
            vstd::slice::slice_subrange(self.read_data.as_slice(), start, end),
        );
        proof {
            let data = self.read_data();
            assert(data.skip(start as int).skip(len as int) =~= data.skip(end as int));
        }
        self.advance(end);
        Ok(payload)
    }

    fn read_mqtt_string(&mut self) -> (r: Result<String>) {
        let (start, end) = match self.frame(0) {
            Some((start, _)) => (start, self.read_data.len()),
            None => {
                return Err(Error::UnexpectedEof);
            },
        };
        assert(self.unread() =~= self.read_data().subrange(start as int, end as int));
        match decode_string(self.read_data.as_slice(), start, end) {
            Ok((string, next)) => {
                proof {
                    let data = self.read_data();
                    assert(data.skip(start as int).skip(next - start) =~= data.skip(next as int));
                }
                self.advance(next);
                Ok(string)
            },
            Err(e) => Err(e),
        }
    }

    fn read_remaining_length(&mut self) -> (r: Result<usize>) {
        let (start, end) = match self.frame(0) {
            Some((start, _)) => (start, self.read_data.len()),
            None => {
                return Err(Error::UnexpectedEof);
            },
        };
        assert(self.unread() =~= self.read_data().subrange(start as int, end as int));
        match decode_remaining_length(self.read_data.as_slice(), start, end) {
            Ok((len, next)) => {
                proof {
                    let data = self.read_data();
                    assert(data.skip(start as int).skip(next - start) =~= data.skip(next as int));
                }
                self.advance(next);
                Ok(len)
            },
            Err(e) => Err(e),
        }
    }
}

impl MqttWrite for MockStream {
    open spec fn written(&self) -> Seq<u8> {
        self.write_data()
    }

    fn write_packet(&mut self, packet: &Packet) -> (r: Result<()>)
        ensures
            final(self).read_data() == old(self).read_data(),
            final(self).read_idx() == old(self).read_idx(),
    {
        self.write_data.write_packet(packet)
    }

    fn write_mqtt_string(&mut self, string: &str) -> (r: Result<()>)
        ensures
            final(self).read_data() == old(self).read_data(),
            final(self).read_idx() == old(self).read_idx(),
    {
        self.write_data.write_mqtt_string(string)
    }

    fn write_remaining_length(&mut self, len: usize) -> (r: Result<()>)
        ensures
            final(self).read_data() == old(self).read_data(),
            final(self).read_idx() == old(self).read_idx(),
    {
        self.write_data.write_remaining_length(len)
    }
}

impl Clone for MockStream {
    fn clone(&self) -> (copy: MockStream)
        ensures
            copy.spec_peer_addr() == self.spec_peer_addr(),
            copy.read_data() == self.read_data(),
            copy.read_idx() == self.read_idx(),
            copy.write_data() == self.write_data(),
    {
        MockStream {
            peer_addr: self.peer_addr.clone(),
            read_data: self.read_data.clone(),
            write_data: self.write_data.clone(),
            read_idx: self.read_idx,
        }
    }
}

/// Makes streams that all read the same data.
#[derive(Debug)]
pub struct MockConnector {
    read_data: Vec<u8>,
}

impl MockConnector {
    /// The data that each stream of this connector reads.
    pub closed spec fn read_data(&self) -> Seq<u8> {
        self.read_data@
    }

    /// A connector whose streams have nothing to read.
    pub fn new() -> (connector: MockConnector)
        ensures
            connector.read_data() == Seq::<u8>::empty(),
    {
        MockConnector { read_data: Vec::new() }
    }

    /// A connector whose streams read `read_data`.
    pub fn with_read_data(read_data: Vec<u8>) -> (connector: MockConnector)
        ensures
            connector.read_data() == read_data@,
    {
        MockConnector { read_data: read_data }
    }

    /// A stream to `host_port` that reads the connector's data from its
    /// start.
    pub fn connect(&self, host_port: &str) -> (stream: MockStream)
        ensures
            stream.spec_peer_addr() == host_port@,
            stream.read_data() == self.read_data(),
            stream.read_idx() == 0,
            stream.write_data() == Seq::<u8>::empty(),
    {
        MockStream::with_read_data(host_port, self.read_data.clone())
    }
}

impl Clone for MockConnector {
    fn clone(&self) -> (copy: MockConnector)
        ensures
            copy.read_data() == self.read_data(),
    {
        MockConnector { read_data: self.read_data.clone() }
    }
}

} // verus!
