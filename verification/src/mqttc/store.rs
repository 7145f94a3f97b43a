//! Stores of messages in flight, keyed by packet identifier.
use std::collections::BTreeMap;
use vstd::prelude::*;
use crate::mqtt3::msg::{Message, MessageView};
use crate::mqtt3::PacketIdentifier;

verus! {

#[derive(Debug, Clone, Copy, PartialEq, Eq, Structural)]
pub enum Error {
    NotFound(PacketIdentifier),
    Unavailable(PacketIdentifier),
}

pub type Result<T> = core::result::Result<T, Error>;

impl Error {
    pub open spec fn spec_description(self) -> Seq<char> {
        match self {
            Error::NotFound(_) => "Packet not found"@,
            Error::Unavailable(_) => "Packet unavailable"@,
        }
    }

    pub fn description(&self) -> (text: &'static str)
        ensures
            text@ == self.spec_description(),
    {
        match self {
            Error::NotFound(_) => "Packet not found",
            Error::Unavailable(_) => "Packet unavailable",
        }
    }

    /// The packet identifier that the error is about.
    pub open spec fn pid(self) -> PacketIdentifier {
        match self {
            Error::NotFound(pid) => pid,
            Error::Unavailable(pid) => pid,
        }
    }
}

/// A store of messages, keyed by packet identifier.
///
/// A store may fail to do what it is asked, and is then as it was; a
/// reliable store never fails. A store reports a message as not found
/// only if it does not hold it.
pub trait Store: Send {
    /// The messages that the store holds.
    spec fn contents(&self) -> Map<u16, MessageView>;

    /// Whether the store always does what it is asked.
    spec fn reliable(&self) -> bool;

    /// Keeps a message under its packet identifier, in place of the one
    /// that was kept under it.
    fn put(&mut self, message: Message) -> (r: Result<()>)
        requires
            message.pid is Some,
        ensures
            final(self).reliable() == old(self).reliable(),
            old(self).reliable() ==> r is Ok,
            match r {
                Ok(_) => final(self).contents() == old(self).contents().insert(
                    message.pid->Some_0.0,
                    message@,
                ),
                Err(e) => final(self).contents() == old(self).contents() && e
                    == Error::Unavailable(message.pid->Some_0),
            },
    ;

    /// A copy of the message that is kept under `pid`.
    fn get(&mut self, pid: PacketIdentifier) -> (r: Result<Message>)
        ensures
            final(self).reliable() == old(self).reliable(),
            old(self).reliable() ==> !(r matches Err(Error::Unavailable(_))),
            final(self).contents() == old(self).contents(),
            match r {
                Ok(message) => old(self).contents().contains_key(pid.0) && message@ == old(
                    self,
                ).contents()[pid.0],
                Err(Error::NotFound(p)) => p == pid && !old(self).contents().contains_key(pid.0),
                Err(Error::Unavailable(p)) => p == pid,
            },
    ;

    /// Forgets the message that is kept under `pid`, if there is one.
    fn delete(&mut self, pid: PacketIdentifier) -> (r: Result<()>)
        ensures
            final(self).reliable() == old(self).reliable(),
            old(self).reliable() ==> r is Ok,
            match r {
                Ok(_) => final(self).contents() == old(self).contents().remove(pid.0),
                Err(e) => final(self).contents() == old(self).contents() && e
                    == Error::Unavailable(pid),
            },
    ;
}

/// A store in memory, which never fails.
pub struct MemoryStorage(pub BTreeMap<u16, Message>);

impl MemoryStorage {
    /// The views of the messages that are kept.
    pub open spec fn messages(&self) -> Map<u16, MessageView> {
        Map::new(|k: u16| self.0@.contains_key(k), |k: u16| self.0@[k]@)
    }

    /// An empty store.
    pub fn new() -> (store: Box<MemoryStorage>)
        ensures
            store.messages() == Map::<u16, MessageView>::empty(),
    {
        let store = MemoryStorage(BTreeMap::new());
        assert(store.messages() =~= Map::<u16, MessageView>::empty());
        Box::new(store)
    }
}

impl Store for MemoryStorage {
    open spec fn contents(&self) -> Map<u16, MessageView> {
        self.messages()
    }

    open spec fn reliable(&self) -> bool {
        true
    }

    fn put(&mut self, message: Message) -> (r: Result<()>) {
        let ghost view = message@;
        let pid = match message.pid {
            Some(pid) => pid,
            None => vstd::pervasive::unreached(),
        };
        self.0.insert(pid.0, message);
        assert(self.messages() =~= old(self).messages().insert(pid.0, view));
        Ok(())
    }

    fn get(&mut self, pid: PacketIdentifier) -> (r: Result<Message>) {
        match self.0.get(&pid.0) {
            Some(message) => Ok(message.clone()),
            None => Err(Error::NotFound(pid)),
        }
    }

    fn delete(&mut self, pid: PacketIdentifier) -> (r: Result<()>) {
        self.0.remove(&pid.0);
        assert(self.messages() =~= old(self).messages().remove(pid.0));
        Ok(())
    }
}

} // verus!
