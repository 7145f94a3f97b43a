//! The session engine: handshake, keep-alive, the QoS 1 and QoS 2
//! flows, subscriptions and reconnection.
use std::sync::Arc;
use std::time::Duration;
use vstd::prelude::*;
use vstd::slice::slice_to_vec;

use vstd::utf8::encode_utf8;

pub mod client;
pub mod error;
pub mod laws;
pub mod options;
pub mod pubopt;
pub mod session;
pub mod store;
pub mod sub;

pub use self::client::{Client, Incoming, PubSub};
pub use self::error::{Error, Result};
pub use self::options::ClientOptions;
pub use self::pubopt::PubOpt;
pub use self::sub::{Subscription, ToSubTopics, ToUnSubTopics};

verus! {

/// Where a session stands.
#[derive(Debug, Clone, Copy, PartialEq, Eq, Structural)]
pub enum ClientState {
    /// CONNECT was sent and CONNACK has not come.
    Handshake,
    Connected,
    Disconnected,
}

/// What to do when the connection is lost.
#[derive(Debug, Clone, Copy, PartialEq, Eq)]
pub enum ReconnectMethod {
    ForeverDisconnect,
    ReconnectAfter(Duration),
}

/// The bytes of a payload, shared.
pub type Payload = Arc<Vec<u8>>;

/// Something that can be sent as a payload.
pub trait ToPayload {
    /// The bytes of the payload.
    spec fn payload_bytes(&self) -> Seq<u8>;

    fn to_payload(&self) -> (payload: Payload)
        ensures
            payload@ == self.payload_bytes(),
    ;
}

impl ToPayload for String {
    open spec fn payload_bytes(&self) -> Seq<u8> {
        encode_utf8(self@)
    }

    fn to_payload(&self) -> (payload: Payload) {
        Arc::new(slice_to_vec(self.as_str().as_bytes()))
    }
}

impl<'a> ToPayload for &'a str {
    open spec fn payload_bytes(&self) -> Seq<u8> {
        encode_utf8(self@)
    }

    fn to_payload(&self) -> (payload: Payload) {
        Arc::new(slice_to_vec(self.as_bytes()))
    }
}

impl ToPayload for Vec<u8> {
    open spec fn payload_bytes(&self) -> Seq<u8> {
        self@
    }

    fn to_payload(&self) -> (payload: Payload) {
        Arc::new(self.clone())
    }
}

impl ToPayload for Arc<Vec<u8>> {
    open spec fn payload_bytes(&self) -> Seq<u8> {
        self@
    }

    fn to_payload(&self) -> (payload: Payload) {
        self.clone()
    }
}

} // verus!
