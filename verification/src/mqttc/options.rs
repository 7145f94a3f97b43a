//! The options of a connection.
use vstd::prelude::*;
use crate::mqtt3::mqtt::{clone_opt_will, opt_will_view, Connect, ConnectView};
use crate::mqtt3::topic::{chars_of, string_of, topic_name_of, ToTopicPath};
use crate::mqtt3::{clone_opt_string, opt_string_view, LastWill, LastWillView, Protocol};
use super::error::{Error, Result};
use super::pubopt::PubOpt;
use super::store::Store;
use super::ReconnectMethod;

verus! {

/// The decimal digit for a number below 10.
pub open spec fn spec_digit(d: nat) -> char {
    if d == 0 {
        '0'
    } else if d == 1 {
        '1'
    } else if d == 2 {
        '2'
    } else if d == 3 {
        '3'
    } else if d == 4 {
        '4'
    } else if d == 5 {
        '5'
    } else if d == 6 {
        '6'
    } else if d == 7 {
        '7'
    } else if d == 8 {
        '8'
    } else {
        '9'
    }
}

/// A number in decimal digits, without leading zeros.
pub open spec fn decimal(n: nat) -> Seq<char>
    decreases n,
{
    if n < 10 {
        seq![spec_digit(n)]
    } else {
        decimal(n / 10).push(spec_digit(n % 10))
    }
}

/// The client identifier that is made for a number: `mqttc_` and the
/// number in decimal digits.
pub open spec fn generated_client_id(id: u32) -> Seq<char> {
    "mqttc_"@ + decimal(id as nat)
}

fn digit(d: u32) -> (c: char)
    requires
        d < 10,
    ensures
        c == spec_digit(d as nat),
{
    match d {
        0 => '0',
        1 => '1',
        2 => '2',
        3 => '3',
        4 => '4',
        5 => '5',
        6 => '6',
        7 => '7',
        8 => '8',
        _ => '9',
    }
}

/// Appends a number in decimal digits.
fn push_decimal(out: &mut Vec<char>, n: u32)
    ensures
        final(out)@ == old(out)@ + decimal(n as nat),
    decreases n,
{
    if n >= 10 {
        push_decimal(out, n / 10);
    }
    out.push(digit(n % 10));
    assert(out@ =~= old(out)@ + decimal(n as nat));
}

/// A number that differs from call to call.
///
/// Calls `rand::random` for a `u32`, which draws the number from the
/// random number generator of the thread. Nothing is known of the
/// number.
#[verifier::external_body]
fn random_u32() -> u32 {
    rand::random::<u32>()
}

/// What a connection is opened with.
pub struct ClientOptions {
    pub protocol: Protocol,
    /// In seconds.
    pub keep_alive: Option<u16>,
    pub clean_session: bool,
    pub client_id: Option<String>,
    pub last_will: Option<LastWill>,
    pub username: Option<String>,
    pub password: Option<String>,
    pub reconnect: ReconnectMethod,
    pub incomming_store: Option<Box<dyn Store>>,
    pub outgoing_store: Option<Box<dyn Store>>,
}

impl ClientOptions {
    /// The CONNECT that these options ask for, with this client
    /// identifier where they have none.
    pub open spec fn connect_view(&self) -> ConnectView {
        ConnectView {
            protocol: self.protocol,
            keep_alive: match self.keep_alive {
                Some(secs) => secs,
                None => 0,
            },
            client_id: match self.client_id {
                Some(id) => id@,
                None => Seq::empty(),
            },
            clean_session: self.clean_session,
            last_will: opt_will_view(self.last_will),
            username: opt_string_view(self.username),
            password: opt_string_view(self.password),
        }
    }

    /// MQTT 3.1.1, a keep-alive of 30 seconds, a clean session, no
    /// reconnection, and nothing else.
    pub fn new() -> (opts: ClientOptions)
        ensures
            opts.protocol == Protocol::MQTT(4),
            opts.keep_alive == Some(30u16),
            opts.clean_session,
            opts.client_id is None,
            opts.last_will is None,
            opts.username is None,
            opts.password is None,
            opts.reconnect == ReconnectMethod::ForeverDisconnect,
            opts.incomming_store is None,
            opts.outgoing_store is None,
    {
        ClientOptions {
            protocol: Protocol::MQTT(4),
            keep_alive: Some(30),
            clean_session: true,
            client_id: None,
            last_will: None,
            username: None,
            password: None,
            reconnect: ReconnectMethod::ForeverDisconnect,
            incomming_store: None,
            outgoing_store: None,
        }
    }

    pub fn set_keep_alive(&mut self, secs: u16) -> (opts: &mut ClientOptions)
        ensures
            *opts == (ClientOptions { keep_alive: Some(secs), ..*old(self) }),
            *final(self) == *final(opts),
    {
        self.keep_alive = Some(secs);
        self
    }

    pub fn set_protocol(&mut self, protocol: Protocol) -> (opts: &mut ClientOptions)
        ensures
            *opts == (ClientOptions { protocol: protocol, ..*old(self) }),
            *final(self) == *final(opts),
    {
        self.protocol = protocol;
        self
    }

    pub fn set_client_id(&mut self, client_id: String) -> (opts: &mut ClientOptions)
        ensures
            *opts == (ClientOptions { client_id: Some(client_id), ..*old(self) }),
            *final(self) == *final(opts),
    {
        self.client_id = Some(client_id);
        self
    }

    pub fn set_clean_session(&mut self, clean_session: bool) -> (opts: &mut ClientOptions)
        ensures
            *opts == (ClientOptions { clean_session: clean_session, ..*old(self) }),
            *final(self) == *final(opts),
    {
        self.clean_session = clean_session;
        self
    }

    pub fn set_incomming_store(&mut self, store: Box<dyn Store>) -> (opts:
        &mut ClientOptions)
        ensures
            *opts == (ClientOptions { incomming_store: Some(store), ..*old(self) }),
            *final(self) == *final(opts),
    {
        self.incomming_store = Some(store);
        self
    }

    pub fn set_outgoing_store(&mut self, store: Box<dyn Store>) -> (opts:
        &mut ClientOptions)
        ensures
            *opts == (ClientOptions { outgoing_store: Some(store), ..*old(self) }),
            *final(self) == *final(opts),
    {
        self.outgoing_store = Some(store);
        self
    }

    /// Sets the client identifier that is made for `id`.
    pub fn set_generated_client_id(&mut self, id: u32) -> (opts: &mut ClientOptions)
        ensures
            opts.client_id is Some,
            opts.client_id->Some_0@ == generated_client_id(id),
            *opts == (ClientOptions { client_id: opts.client_id, ..*old(self) }),
            *final(self) == *final(opts),
    {
        let mut chars = chars_of("mqttc_");
        push_decimal(&mut chars, id);
        self.client_id = Some(string_of(&chars));
        self
    }

    /// Sets a client identifier that is made for a random number.
    pub fn generate_client_id(&mut self) -> (opts: &mut ClientOptions)
        ensures
            opts.client_id is Some,
            exists|id: u32| opts.client_id->Some_0@ == generated_client_id(id),
            *opts == (ClientOptions { client_id: opts.client_id, ..*old(self) }),
            *final(self) == *final(opts),
    {
        let id = random_u32();
        self.set_generated_client_id(id)
    }

    pub fn set_username(&mut self, username: String) -> (opts: &mut ClientOptions)
        ensures
            *opts == (ClientOptions { username: Some(username), ..*old(self) }),
            *final(self) == *final(opts),
    {
        self.username = Some(username);
        self
    }

    pub fn set_password(&mut self, password: String) -> (opts: &mut ClientOptions)
        ensures
            *opts == (ClientOptions { password: Some(password), ..*old(self) }),
            *final(self) == *final(opts),
    {
        self.password = Some(password);
        self
    }

    /// Sets the will, if `topic` is a topic name: a valid topic path
    /// without a wildcard. Else the options stay as they were.
    pub fn set_last_will<T: ToTopicPath>(
        &mut self,
        topic: T,
        message: String,
        pub_opt: PubOpt,
    ) -> (r: Result<()>)
        ensures
            match topic_name_of(topic.parsed()) {
                Ok(name) => {
                    &&& r is Ok
                    &&& final(self).last_will is Some
                    &&& final(self).last_will->Some_0@ == (LastWillView {
                        topic: name.path,
                        message: message@,
                        qos: pub_opt.spec_qos(),
                        retain: pub_opt.spec_is_retain(),
                    })
                    &&& *final(self) == (ClientOptions {
                        last_will: final(self).last_will,
                        ..*old(self)
                    })
                },
                Err(e) => r == Err::<(), Error>(Error::Mqtt(e)) && *final(self) == *old(self),
            },
    {
        let topic_name = match topic.to_topic_name() {
            Ok(name) => name,
            Err(e) => {
                return Err(Error::Mqtt(e));
            },
        };
        self.last_will = Some(
            LastWill {
                topic: topic_name.path(),
                message: message,
                qos: pub_opt.qos(),
                retain: pub_opt.is_retain(),
            },
        );
        Ok(())
    }

    pub fn set_last_will_opt(&mut self, last_will: Option<LastWill>) -> (opts: &mut ClientOptions)
        ensures
            *opts == (ClientOptions { last_will: last_will, ..*old(self) }),
            *final(self) == *final(opts),
    {
        self.last_will = last_will;
        self
    }

    pub fn set_reconnect(&mut self, reconnect: ReconnectMethod) -> (opts: &mut ClientOptions)
        ensures
            *opts == (ClientOptions { reconnect: reconnect, ..*old(self) }),
            *final(self) == *final(opts),
    {
        self.reconnect = reconnect;
        self
    }

    /// The CONNECT that these options ask for. A client identifier
    /// must have been set or generated.
    pub fn _generate_connect_packet(&self) -> (connect: Connect)
        requires
            self.client_id is Some,
        ensures
            connect@ == self.connect_view(),
    {
        let keep_alive = match self.keep_alive {
            Some(secs) => secs,
            None => 0,
        };
        let client_id = match &self.client_id {
            Some(id) => id.clone(),
            None => vstd::pervasive::unreached(),
        };
        Connect {
            protocol: self.protocol,
            keep_alive: keep_alive,
            client_id: client_id,
            clean_session: self.clean_session,
            last_will: clone_opt_will(&self.last_will),
            username: clone_opt_string(&self.username),
            password: clone_opt_string(&self.password),
        }
    }
}

} // verus!
