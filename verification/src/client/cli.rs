//! The command line: which command is asked for, and what its options
//! mean.
use vstd::prelude::*;
use crate::mqtt3::mqtt::{topics_view, SubscribeTopic, SubscribeTopicView};
use crate::mqtt3::topic::chars_of;
use crate::mqtt3::{opt_string_view, str_eq, LastWill, LastWillView, Protocol, QoS};
use super::command::{
    opt_tls_view, PublishCommand, PublishCommandView, SubscribeCommand, SubscribeCommandView, Tls,
    TlsVersion, TlsView,
};

verus! {

/// Why a command line is not run.
#[derive(Debug, Clone, Copy, PartialEq, Eq, Structural)]
pub enum CliError {
    /// The usage was asked for.
    Help,
    /// The options are not those of the command.
    Options,
    TopicRequired,
    MessageAndFile,
    QosFormat,
    QosUnsupported,
    PortFormat,
    KeepAliveFormat,
    ProtocolVersion,
    TlsVersion,
    WillIncomplete,
}

impl CliError {
    pub open spec fn spec_message(self) -> Seq<char> {
        match self {
            CliError::Help => "help"@,
            CliError::Options => "unrecognized options"@,
            CliError::TopicRequired => "Please set the topic name"@,
            CliError::MessageAndFile => "Shouldn't set both message and file together"@,
            CliError::QosFormat => "qos format error"@,
            CliError::QosUnsupported => "unsupported qos value"@,
            CliError::PortFormat => "port format error"@,
            CliError::KeepAliveFormat => "keep alive format error"@,
            CliError::ProtocolVersion => "unsupported protocol version"@,
            CliError::TlsVersion => "unsupported TLS version"@,
            CliError::WillIncomplete => "both will-topic and will-message required"@,
        }
    }

    /// The exit code of the program: 0 after the usage, else 64, for a
    /// command line usage error.
    pub open spec fn spec_exit_code(self) -> i32 {
        if self == CliError::Help {
            0
        } else {
            64
        }
    }

    pub fn message(&self) -> (text: &'static str)
        ensures
            text@ == self.spec_message(),
    {
        match self {
            CliError::Help => "help",
            CliError::Options => "unrecognized options",
            CliError::TopicRequired => "Please set the topic name",
            CliError::MessageAndFile => "Shouldn't set both message and file together",
            CliError::QosFormat => "qos format error",
            CliError::QosUnsupported => "unsupported qos value",
            CliError::PortFormat => "port format error",
            CliError::KeepAliveFormat => "keep alive format error",
            CliError::ProtocolVersion => "unsupported protocol version",
            CliError::TlsVersion => "unsupported TLS version",
            CliError::WillIncomplete => "both will-topic and will-message required",
        }
    }

    pub fn exit_code(&self) -> (code: i32)
        ensures
            code == self.spec_exit_code(),
    {
        match self {
            CliError::Help => 0,
            _ => 64,
        }
    }
}

/* Numbers */

/// The value of a decimal digit.
pub open spec fn digit_value(c: char) -> Option<nat> {
    if c == '0' {
        Some(0)
    } else if c == '1' {
        Some(1)
    } else if c == '2' {
        Some(2)
    } else if c == '3' {
        Some(3)
    } else if c == '4' {
        Some(4)
    } else if c == '5' {
        Some(5)
    } else if c == '6' {
        Some(6)
    } else if c == '7' {
        Some(7)
    } else if c == '8' {
        Some(8)
    } else if c == '9' {
        Some(9)
    } else {
        None
    }
}

/// The number that decimal digits stand for: there must be one digit
/// at least, and nothing but digits.
pub open spec fn decimal_value(digits: Seq<char>) -> Option<nat>
    decreases digits.len(),
{
    if digits.len() == 0 {
        None
    } else {
        match digit_value(digits.last()) {
            None => None,
            Some(d) => if digits.len() == 1 {
                Some(d)
            } else {
                match decimal_value(digits.drop_last()) {
                    None => None,
                    Some(v) => Some(v * 10 + d),
                }
            },
        }
    }
}

/// The number up to `max` that a string stands for: decimal digits,
/// after a `+` or after nothing.
pub open spec fn number(s: Seq<char>, max: nat) -> Option<nat> {
    let digits = if s.len() > 0 && s[0] == '+' {
        s.skip(1)
    } else {
        s
    };
    match decimal_value(digits) {
        Some(v) => if v <= max {
            Some(v)
        } else {
            None
        },
        None => None,
    }
}

fn digit_of(c: char) -> (d: Option<u32>)
    ensures
        match digit_value(c) {
            Some(v) => d == Some(v as u32) && v <= 9,
            None => d is None,
        },
{
    match c {
        '0' => Some(0),
        '1' => Some(1),
        '2' => Some(2),
        '3' => Some(3),
        '4' => Some(4),
        '5' => Some(5),
        '6' => Some(6),
        '7' => Some(7),
        '8' => Some(8),
        '9' => Some(9),
        _ => None,
    }
}

/// Decimal digits are a number or none at all, as their first ones
/// are, and a longer number is no smaller.
proof fn lemma_decimal_prefix(digits: Seq<char>, k: int)
    requires
        1 <= k <= digits.len(),
    ensures
        decimal_value(digits.take(k)) is None ==> decimal_value(digits) is None,
        decimal_value(digits) is Some ==> decimal_value(digits)->Some_0 >= decimal_value(
            digits.take(k),
        )->Some_0,
    decreases digits.len() - k,
{
    if k == digits.len() {
        assert(digits.take(k) =~= digits);
    } else {
        assert(digits.take(k + 1).drop_last() =~= digits.take(k));
        lemma_decimal_prefix(digits, k + 1);
    }
}

/// The number up to `max` that a string stands for.
pub fn parse_number(s: &str, max: u32) -> (n: Option<u32>)
    ensures
        match number(s@, max as nat) {
            Some(v) => n == Some(v as u32),
            None => n is None,
        },
{
    let chars = chars_of(s);
    let start: usize = if chars.len() > 0 && chars[0] == '+' { 1 } else { 0 };
    let ghost digits = chars@.skip(start as int);
    assert(digits == (if s@.len() > 0 && s@[0] == '+' {
        s@.skip(1)
    } else {
        s@
    })) by {
        assert(chars@.skip(0) =~= chars@);
    }
    if chars.len() == start {
        return None;
    }
    let mut value: u32 = 0;
    let mut i: usize = start;
    while i < chars.len()
        invariant
            start <= i <= chars@.len(),
            start < chars@.len(),
            chars@ == s@,
            digits == chars@.skip(start as int),
            digits == (if s@.len() > 0 && s@[0] == '+' {
                s@.skip(1)
            } else {
                s@
            }),
            value <= max,
            i > start ==> decimal_value(digits.take(i - start)) == Some(value as nat),
            i == start ==> value == 0,
        decreases chars@.len() - i,
    {
        let ghost next = digits.take(i + 1 - start);
        proof {
            assert(next.drop_last() =~= digits.take(i - start));
            assert(next.last() == chars@[i as int]);
            assert(next.len() == i + 1 - start);
            lemma_decimal_prefix(digits, i + 1 - start);
        }
        let d = match digit_of(chars[i]) {
            Some(d) => d,
            None => {
                return None;
            },
        };
        let wider: u64 = (value as u64) * 10 + (d as u64);
        if wider > max as u64 {
            return None;
        }
        value = wider as u32;
        i += 1;
    }
    assert(digits.take(i - start) =~= digits);
    Some(value)
}

/* The command line */

/// Which command a command line asks for.
#[derive(Debug, Clone, Copy, PartialEq, Eq, Structural)]
pub enum CommandKind {
    Subscribe,
    Publish,
    Help,
}

/// The version of the protocol that an option names.
pub open spec fn spec_protocol(version: Seq<char>) -> Result<Protocol, CliError> {
    if version == "3.1"@ {
        Ok(Protocol::MQIsdp(3))
    } else if version == "3.1.1"@ {
        Ok(Protocol::MQTT(4))
    } else {
        Err(CliError::ProtocolVersion)
    }
}

/// The version of TLS that an option names.
pub open spec fn spec_tls_version(version: Seq<char>) -> Result<TlsVersion, CliError> {
    if version == "1"@ {
        Ok(TlsVersion::Tlsv1)
    } else if version == "1.1"@ {
        Ok(TlsVersion::Tlsv1_1)
    } else if version == "1.2"@ {
        Ok(TlsVersion::Tlsv1_2)
    } else {
        Err(CliError::TlsVersion)
    }
}

/// The tier that an option names: a number up to 255 that is a tier.
pub open spec fn spec_qos(s: Seq<char>) -> Result<QoS, CliError> {
    match number(s, 255) {
        None => Err(CliError::QosFormat),
        Some(v) => match QoS::spec_from_u8(v as u8) {
            Ok(qos) => Ok(qos),
            Err(_) => Err(CliError::QosUnsupported),
        },
    }
}

/// The 16-bit number that an option names, or `default` without the
/// option, or `error`.
pub open spec fn spec_u16_option(
    s: Option<Seq<char>>,
    default: u16,
    error: CliError,
) -> Result<u16, CliError> {
    match s {
        None => Ok(default),
        Some(s) => match number(s, 65535) {
            Some(v) => Ok(v as u16),
            None => Err(error),
        },
    }
}

pub fn parse_protocol(version: &str) -> (r: Result<Protocol, CliError>)
    ensures
        r == spec_protocol(version@),
{
    if str_eq(version, "3.1") {
        Ok(Protocol::MQIsdp(3))
    } else if str_eq(version, "3.1.1") {
        Ok(Protocol::MQTT(4))
    } else {
        Err(CliError::ProtocolVersion)
    }
}

pub fn parse_tls_version(version: &str) -> (r: Result<TlsVersion, CliError>)
    ensures
        r == spec_tls_version(version@),
{
    if str_eq(version, "1") {
        Ok(TlsVersion::Tlsv1)
    } else if str_eq(version, "1.1") {
        Ok(TlsVersion::Tlsv1_1)
    } else if str_eq(version, "1.2") {
        Ok(TlsVersion::Tlsv1_2)
    } else {
        Err(CliError::TlsVersion)
    }
}

fn parse_u16_option(s: &Option<String>, default: u16, error: CliError) -> (r: Result<u16, CliError>)
    ensures
        r == spec_u16_option(opt_string_view(*s), default, error),
{
    match s {
        None => Ok(default),
        Some(s) => match parse_number(s.as_str(), 65535) {
            Some(v) => Ok(v as u16),
            None => Err(error),
        },
    }
}

/// The TLS options of a command line.
#[derive(Debug)]
pub struct TlsArgs {
    pub tls: Option<String>,
    pub cafile: Option<String>,
    pub key: Option<String>,
    pub cert: Option<String>,
    pub unverified: bool,
}

pub ghost struct TlsArgsView {
    pub tls: Option<Seq<char>>,
    pub cafile: Option<Seq<char>>,
    pub key: Option<Seq<char>>,
    pub cert: Option<Seq<char>>,
    pub unverified: bool,
}

impl View for TlsArgs {
    type V = TlsArgsView;

    open spec fn view(&self) -> TlsArgsView {
        TlsArgsView {
            tls: opt_string_view(self.tls),
            cafile: opt_string_view(self.cafile),
            key: opt_string_view(self.key),
            cert: opt_string_view(self.cert),
            unverified: self.unverified,
        }
    }
}

/// How the connection is secured: not at all without the option
/// `tls`, else with the version it names.
pub open spec fn spec_tls(args: TlsArgsView) -> Result<Option<TlsView>, CliError> {
    match args.tls {
        None => Ok(None),
        Some(version) => match spec_tls_version(version) {
            Err(e) => Err(e),
            Ok(version) => Ok(
                Some(
                    TlsView {
                        version: version,
                        cafile: args.cafile,
                        key: args.key,
                        cert: args.cert,
                        verify: !args.unverified,
                    },
                ),
            ),
        },
    }
}

pub fn parse_tls(args: TlsArgs) -> (r: Result<Option<Tls>, CliError>)
    ensures
        match spec_tls(args@) {
            Ok(tls) => r matches Ok(got) && opt_tls_view(got) == tls,
            Err(e) => r matches Err(err) && err == e,
        },
{
    let version = match &args.tls {
        None => {
            return Ok(None);
        },
        Some(version) => match parse_tls_version(version.as_str()) {
            Ok(version) => version,
            Err(e) => {
                return Err(e);
            },
        },
    };
    Ok(
        Some(
            Tls {
                version: version,
                cafile: args.cafile,
                key: args.key,
                cert: args.cert,
                verify: !args.unverified,
            },
        ),
    )
}

/// The options of a publish, as the command line gives them.
#[derive(Debug)]
pub struct PublishArgs {
    pub help: bool,
    pub topic: Option<String>,
    pub message: Option<String>,
    pub file: Option<String>,
    pub qos: Option<String>,
    pub retain: bool,
    pub address: Option<String>,
    pub port: Option<String>,
    pub keep_alive: Option<String>,
    pub client_id: Option<String>,
    pub username: Option<String>,
    pub password: Option<String>,
    pub version: Option<String>,
    pub debug: bool,
    pub tls: TlsArgs,
}

pub ghost struct PublishArgsView {
    pub help: bool,
    pub topic: Option<Seq<char>>,
    pub message: Option<Seq<char>>,
    pub file: Option<Seq<char>>,
    pub qos: Option<Seq<char>>,
    pub retain: bool,
    pub address: Option<Seq<char>>,
    pub port: Option<Seq<char>>,
    pub keep_alive: Option<Seq<char>>,
    pub client_id: Option<Seq<char>>,
    pub username: Option<Seq<char>>,
    pub password: Option<Seq<char>>,
    pub version: Option<Seq<char>>,
    pub debug: bool,
    pub tls: TlsArgsView,
}

impl View for PublishArgs {
    type V = PublishArgsView;

    open spec fn view(&self) -> PublishArgsView {
        PublishArgsView {
            help: self.help,
            topic: opt_string_view(self.topic),
            message: opt_string_view(self.message),
            file: opt_string_view(self.file),
            qos: opt_string_view(self.qos),
            retain: self.retain,
            address: opt_string_view(self.address),
            port: opt_string_view(self.port),
            keep_alive: opt_string_view(self.keep_alive),
            client_id: opt_string_view(self.client_id),
            username: opt_string_view(self.username),
            password: opt_string_view(self.password),
            version: opt_string_view(self.version),
            debug: self.debug,
            tls: self.tls@,
        }
    }
}

/// What is checked of the options of a publish, in this order: the
/// help, the topic, message and file, the tier, the port, the
/// keep-alive, the protocol, TLS.
pub open spec fn spec_publish_checks(args: PublishArgsView) -> Result<
    (QoS, u16, u16, Protocol, Option<TlsView>),
    CliError,
> {
    let d = PublishCommandView::default();
    if args.help {
        Err(CliError::Help)
    } else if args.topic is None {
        Err(CliError::TopicRequired)
    } else if args.message is Some && args.file is Some {
        Err(CliError::MessageAndFile)
    } else {
        let qos = match args.qos {
            None => Ok(d.qos),
            Some(s) => spec_qos(s),
        };
        let port = spec_u16_option(args.port, d.port, CliError::PortFormat);
        let keep_alive = spec_u16_option(args.keep_alive, d.keep_alive, CliError::KeepAliveFormat);
        let protocol = match args.version {
            None => Ok(d.protocol),
            Some(v) => spec_protocol(v),
        };
        let tls = spec_tls(args.tls);
        if qos is Err {
            Err(qos->Err_0)
        } else if port is Err {
            Err(port->Err_0)
        } else if keep_alive is Err {
            Err(keep_alive->Err_0)
        } else if protocol is Err {
            Err(protocol->Err_0)
        } else if tls is Err {
            Err(tls->Err_0)
        } else {
            Ok((qos->Ok_0, port->Ok_0, keep_alive->Ok_0, protocol->Ok_0, tls->Ok_0))
        }
    }
}

/// The publish that the options ask for.
pub open spec fn spec_publish_parse(args: PublishArgsView) -> Result<PublishCommandView, CliError> {
    let d = PublishCommandView::default();
    match spec_publish_checks(args) {
        Err(e) => Err(e),
        Ok((qos, port, keep_alive, protocol, tls)) => Ok(
            PublishCommandView {
                topic: args.topic->Some_0,
                message: args.message,
                file: args.file,
                qos: qos,
                retain: args.retain,
                address: match args.address {
                    Some(address) => address,
                    None => d.address,
                },
                port: port,
                keep_alive: keep_alive,
                debug: args.debug,
                protocol: protocol,
                client_id: args.client_id,
                username: args.username,
                password: args.password,
                tls: tls,
            },
        ),
    }
}

/// The options of a subscribe, as the command line gives them.
#[derive(Debug)]
pub struct SubscribeArgs {
    pub help: bool,
    pub address: Option<String>,
    pub port: Option<String>,
    pub qos: Option<String>,
    pub keep_alive: Option<String>,
    pub reconnect: bool,
    pub client_id: Option<String>,
    pub username: Option<String>,
    pub password: Option<String>,
    pub version: Option<String>,
    pub clean_session: bool,
    pub debug: bool,
    pub silence: bool,
    pub will_message: Option<String>,
    pub will_topic: Option<String>,
    pub will_qos: Option<String>,
    pub will_retain: bool,
    pub tls: TlsArgs,
    /// The arguments that are no options: the topic filters.
    pub free: Vec<String>,
}

pub ghost struct SubscribeArgsView {
    pub help: bool,
    pub address: Option<Seq<char>>,
    pub port: Option<Seq<char>>,
    pub qos: Option<Seq<char>>,
    pub keep_alive: Option<Seq<char>>,
    pub reconnect: bool,
    pub client_id: Option<Seq<char>>,
    pub username: Option<Seq<char>>,
    pub password: Option<Seq<char>>,
    pub version: Option<Seq<char>>,
    pub clean_session: bool,
    pub debug: bool,
    pub silence: bool,
    pub will_message: Option<Seq<char>>,
    pub will_topic: Option<Seq<char>>,
    pub will_qos: Option<Seq<char>>,
    pub will_retain: bool,
    pub tls: TlsArgsView,
    pub free: Seq<Seq<char>>,
}

impl View for SubscribeArgs {
    type V = SubscribeArgsView;

    open spec fn view(&self) -> SubscribeArgsView {
        SubscribeArgsView {
            help: self.help,
            address: opt_string_view(self.address),
            port: opt_string_view(self.port),
            qos: opt_string_view(self.qos),
            keep_alive: opt_string_view(self.keep_alive),
            reconnect: self.reconnect,
            client_id: opt_string_view(self.client_id),
            username: opt_string_view(self.username),
            password: opt_string_view(self.password),
            version: opt_string_view(self.version),
            clean_session: self.clean_session,
            debug: self.debug,
            silence: self.silence,
            will_message: opt_string_view(self.will_message),
            will_topic: opt_string_view(self.will_topic),
            will_qos: opt_string_view(self.will_qos),
            will_retain: self.will_retain,
            tls: self.tls@,
            free: crate::mqtt3::mqtt::strings_view(self.free@),
        }
    }
}

/// The will that the options ask for: one with a topic and a message,
/// at tier 0 unless a tier is named. A topic without a message is an
/// error; a message without a topic is passed over.
pub open spec fn spec_will(
    topic: Option<Seq<char>>,
    message: Option<Seq<char>>,
    qos: Option<Seq<char>>,
    retain: bool,
) -> Result<Option<LastWillView>, CliError> {
    if topic is Some && message is Some {
        match (match qos {
            None => Ok(QoS::AtMostOnce),
            Some(s) => spec_qos(s),
        }) {
            Err(e) => Err(e),
            Ok(qos) => Ok(
                Some(
                    LastWillView {
                        topic: topic->Some_0,
                        message: message->Some_0,
                        qos: qos,
                        retain: retain,
                    },
                ),
            ),
        }
    } else if topic is Some {
        Err(CliError::WillIncomplete)
    } else {
        Ok(None)
    }
}

/// The topic filters that a subscribe asks for, all at one tier: those
/// of the command line, or every topic where it names none.
pub open spec fn spec_topics(free: Seq<Seq<char>>, qos: QoS) -> Seq<SubscribeTopicView> {
    if free.len() > 0 {
        Seq::new(free.len(), |i: int| SubscribeTopicView { topic_path: free[i], qos: qos })
    } else {
        seq![SubscribeTopicView { topic_path: "#"@, qos: qos }]
    }
}

/// What is checked of the options of a subscribe, in this order: the
/// help, the port, the keep-alive, the protocol, the will, TLS, the
/// tier.
pub open spec fn spec_subscribe_checks(args: SubscribeArgsView) -> Result<
    (u16, u16, Protocol, Option<LastWillView>, Option<TlsView>, QoS),
    CliError,
> {
    let d = SubscribeCommandView::default();
    if args.help {
        Err(CliError::Help)
    } else {
        let port = spec_u16_option(args.port, d.port, CliError::PortFormat);
        let keep_alive = spec_u16_option(args.keep_alive, d.keep_alive, CliError::KeepAliveFormat);
        let protocol = match args.version {
            None => Ok(d.protocol),
            Some(v) => spec_protocol(v),
        };
        let will = spec_will(args.will_topic, args.will_message, args.will_qos, args.will_retain);
        let tls = spec_tls(args.tls);
        let qos = match args.qos {
            None => Ok(QoS::ExactlyOnce),
            Some(s) => spec_qos(s),
        };
        if port is Err {
            Err(port->Err_0)
        } else if keep_alive is Err {
            Err(keep_alive->Err_0)
        } else if protocol is Err {
            Err(protocol->Err_0)
        } else if will is Err {
            Err(will->Err_0)
        } else if tls is Err {
            Err(tls->Err_0)
        } else if qos is Err {
            Err(qos->Err_0)
        } else {
            Ok((port->Ok_0, keep_alive->Ok_0, protocol->Ok_0, will->Ok_0, tls->Ok_0, qos->Ok_0))
        }
    }
}

/// The subscribe that the options ask for.
pub open spec fn spec_subscribe_parse(args: SubscribeArgsView) -> Result<
    SubscribeCommandView,
    CliError,
> {
    let d = SubscribeCommandView::default();
    match spec_subscribe_checks(args) {
        Err(e) => Err(e),
        Ok((port, keep_alive, protocol, will, tls, qos)) => Ok(
            SubscribeCommandView {
                topics: spec_topics(args.free, qos),
                address: match args.address {
                    Some(address) => address,
                    None => d.address,
                },
                port: port,
                clean_session: args.clean_session,
                last_will: will,
                keep_alive: keep_alive,
                log_file: None,
                debug: args.debug,
                reconnect: args.reconnect,
                protocol: protocol,
                silence: args.silence,
                client_id: args.client_id,
                username: args.username,
                password: args.password,
                limit: None,
                retain: false,
                topic_filters: Seq::empty(),
                tls: tls,
            },
        ),
    }
}

/// A command line: the program, the command, and the arguments of the
/// command.
#[derive(Debug)]
pub struct CLI {
    pub program: String,
    pub command: String,
    pub arguments: Vec<String>,
}

impl CLI {
    /// Which command the command word asks for.
    pub open spec fn spec_kind(command: Seq<char>) -> CommandKind {
        if command == "subscribe"@ || command == "sub"@ {
            CommandKind::Subscribe
        } else if command == "publish"@ || command == "pub"@ {
            CommandKind::Publish
        } else {
            CommandKind::Help
        }
    }

    /// Splits the arguments of the program: the first is the program,
    /// the second is the command, or `help` is where there is none,
    /// and the others are the arguments of the command. There must be
    /// a first one.
    pub fn new(args: Vec<String>) -> (cli: CLI)
        requires
            args@.len() >= 1,
        ensures
            cli.program == args@[0],
            args@.len() >= 2 ==> cli.command == args@[1] && cli.arguments@ == args@.skip(2),
            args@.len() == 1 ==> cli.command@ == "help"@ && cli.arguments@.len() == 0,
    {
        let mut args = args;
        let ghost all = args@;
        let program = args.remove(0);
        let command = if args.len() < 1 {
            "help".to_owned()
        } else {
            args.remove(0)
        };
        assert(all.len() >= 2 ==> args@ =~= all.skip(2));
        CLI { program: program, command: command, arguments: args }
    }

    /// Which command the command line asks for.
    pub fn parse(&self) -> (kind: CommandKind)
        ensures
            kind == Self::spec_kind(self.command@),
    {
        let command = self.command.as_str();
        if str_eq(command, "subscribe") || str_eq(command, "sub") {
            CommandKind::Subscribe
        } else if str_eq(command, "publish") || str_eq(command, "pub") {
            CommandKind::Publish
        } else {
            CommandKind::Help
        }
    }

    /// The tier that an option names.
    pub fn parse_qos(&self, s: &str) -> (r: Result<QoS, CliError>)
        ensures
            r == spec_qos(s@),
    {
        match parse_number(s, 255) {
            None => Err(CliError::QosFormat),
            Some(v) => match QoS::from_u8(v as u8) {
                Ok(qos) => Ok(qos),
                Err(_) => Err(CliError::QosUnsupported),
            },
        }
    }

    /// The tier that an option names, or `default` without the option.
    fn qos_option(&self, s: &Option<String>, default: QoS) -> (r: Result<QoS, CliError>)
        ensures
            r == match opt_string_view(*s) {
                None => Ok::<QoS, CliError>(default),
                Some(s) => spec_qos(s),
            },
    {
        match s {
            None => Ok(default),
            Some(s) => self.parse_qos(s.as_str()),
        }
    }

    /// The protocol that an option names, or `default` without the
    /// option.
    fn protocol_option(s: &Option<String>, default: Protocol) -> (r: Result<Protocol, CliError>)
        ensures
            r == match opt_string_view(*s) {
                None => Ok::<Protocol, CliError>(default),
                Some(s) => spec_protocol(s),
            },
    {
        match s {
            None => Ok(default),
            Some(s) => parse_protocol(s.as_str()),
        }
    }

    /// The publish that the options ask for, or why there is none.
    pub fn publish_parse(&self, args: PublishArgs) -> (r: Result<PublishCommand, CliError>)
        ensures
            match spec_publish_parse(args@) {
                Ok(c) => r matches Ok(command) && command@ == c,
                Err(e) => r matches Err(err) && err == e,
            },
    {
        let default = PublishCommand::default();
        if args.help {
            return Err(CliError::Help);
        }
        let topic = match args.topic {
            Some(topic) => topic,
            None => {
                return Err(CliError::TopicRequired);
            },
        };
        if args.message.is_some() && args.file.is_some() {
            return Err(CliError::MessageAndFile);
        }
        let qos = match self.qos_option(&args.qos, default.qos) {
            Ok(qos) => qos,
            Err(e) => {
                return Err(e);
            },
        };
        let port = match parse_u16_option(&args.port, default.port, CliError::PortFormat) {
            Ok(port) => port,
            Err(e) => {
                return Err(e);
            },
        };
        let keep_alive = match parse_u16_option(
            &args.keep_alive,
            default.keep_alive,
            CliError::KeepAliveFormat,
        ) {
            Ok(keep_alive) => keep_alive,
            Err(e) => {
                return Err(e);
            },
        };
        let protocol = match Self::protocol_option(&args.version, default.protocol) {
            Ok(protocol) => protocol,
            Err(e) => {
                return Err(e);
            },
        };
        let tls = match parse_tls(args.tls) {
            Ok(tls) => tls,
            Err(e) => {
                return Err(e);
            },
        };
        Ok(
            PublishCommand {
                topic: topic,
                message: args.message,
                file: args.file,
                qos: qos,
                retain: args.retain,
                address: match args.address {
                    Some(address) => address,
                    None => default.address,
                },
                port: port,
                keep_alive: keep_alive,
                debug: args.debug,
                protocol: protocol,
                client_id: args.client_id,
                username: args.username,
                password: args.password,
                tls: tls,
            },
        )
    }

    /// The will that the options ask for.
    fn will(
        &self,
        topic: Option<String>,
        message: Option<String>,
        qos: &Option<String>,
        retain: bool,
    ) -> (r: Result<Option<LastWill>, CliError>)
        ensures
            match spec_will(
                opt_string_view(topic),
                opt_string_view(message),
                opt_string_view(*qos),
                retain,
            ) {
                Ok(w) => r matches Ok(will) && crate::mqtt3::mqtt::opt_will_view(will) == w,
                Err(e) => r matches Err(err) && err == e,
            },
    {
        match (topic, message) {
            (Some(topic), Some(message)) => {
                match self.qos_option(qos, QoS::AtMostOnce) {
                    Ok(qos) => Ok(
                        Some(LastWill { topic: topic, message: message, qos: qos, retain: retain }),
                    ),
                    Err(e) => Err(e),
                }
            },
            (Some(_), None) => Err(CliError::WillIncomplete),
            _ => Ok(None),
        }
    }

    /// The topic filters that a subscribe asks for, all at one tier.
    fn topics(free: Vec<String>, qos: QoS) -> (topics: Vec<SubscribeTopic>)
        ensures
            topics_view(topics@) == spec_topics(crate::mqtt3::mqtt::strings_view(free@), qos),
    {
        let mut topics: Vec<SubscribeTopic> = Vec::new();
        if free.len() == 0 {
            topics.push(SubscribeTopic { topic_path: "#".to_owned(), qos: qos });
            assert(topics_view(topics@) =~= spec_topics(
                crate::mqtt3::mqtt::strings_view(free@),
                qos,
            ));
            return topics;
        }
        let mut i: usize = 0;
        while i < free.len()
            invariant
                i <= free@.len(),
                topics@.len() == i,
                forall|j: int|
                    0 <= j < i ==> (#[trigger] topics@[j])@ == (SubscribeTopicView {
                        topic_path: free@[j]@,
                        qos: qos,
                    }),
            decreases free@.len() - i,
        {
            topics.push(SubscribeTopic { topic_path: free[i].clone(), qos: qos });
            i += 1;
        }
        assert(topics_view(topics@) =~= spec_topics(crate::mqtt3::mqtt::strings_view(free@), qos));
        topics
    }

    /// The subscribe that the options ask for, or why there is none.
    pub fn subscribe_parse(&self, args: SubscribeArgs) -> (r: Result<SubscribeCommand, CliError>)
        ensures
            match spec_subscribe_parse(args@) {
                Ok(c) => r matches Ok(command) && command@ == c,
                Err(e) => r matches Err(err) && err == e,
            },
    {
        let default = SubscribeCommand::default();
        if args.help {
            return Err(CliError::Help);
        }
        let port = match parse_u16_option(&args.port, default.port, CliError::PortFormat) {
            Ok(port) => port,
            Err(e) => {
                return Err(e);
            },
        };
        let keep_alive = match parse_u16_option(
            &args.keep_alive,
            default.keep_alive,
            CliError::KeepAliveFormat,
        ) {
            Ok(keep_alive) => keep_alive,
            Err(e) => {
                return Err(e);
            },
        };
        let protocol = match Self::protocol_option(&args.version, default.protocol) {
            Ok(protocol) => protocol,
            Err(e) => {
                return Err(e);
            },
        };
        let last_will = match self.will(
            args.will_topic,
            args.will_message,
            &args.will_qos,
            args.will_retain,
        ) {
            Ok(will) => will,
            Err(e) => {
                return Err(e);
            },
        };
        let tls = match parse_tls(args.tls) {
            Ok(tls) => tls,
            Err(e) => {
                return Err(e);
            },
        };
        let qos = match self.qos_option(&args.qos, QoS::ExactlyOnce) {
            Ok(qos) => qos,
            Err(e) => {
                return Err(e);
            },
        };
        let command = SubscribeCommand {
            topics: Self::topics(args.free, qos),
            address: match args.address {
                Some(address) => address,
                None => default.address,
            },
            port: port,
            clean_session: args.clean_session,
            last_will: last_will,
            keep_alive: keep_alive,
            log_file: None,
            debug: args.debug,
            silence: args.silence,
            reconnect: args.reconnect,
            protocol: protocol,
            client_id: args.client_id,
            username: args.username,
            password: args.password,
            limit: None,
            retain: false,
            topic_filters: Vec::new(),
            tls: tls,
        };
        assert(command@.topic_filters =~= Seq::<Seq<char>>::empty());
        Ok(command)
    }
}

} // verus!
