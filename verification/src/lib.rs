//! A client for the MQTT 3.1 / 3.1.1 publish/subscribe protocol.
//!
//! `mqtt3` holds the packet types, the topic model and the wire codec;
//! `mqttc` holds the session engine that drives handshake, keep-alive,
//! the QoS 1 and QoS 2 delivery flows, subscriptions and reconnection;
//! `netopt` holds an in-memory stream and the kinds of transport
//! failure; `client` holds the meaning of the command line of the
//! `mqttc` program.
//!
//! The library does no input or output. The session engine is handed
//! what a read from the transport gave and collects what is to be
//! written to it; whoever owns the transport reads, writes and sleeps.
pub mod client;
pub mod mqtt3;
pub mod mqttc;
pub mod netopt;
