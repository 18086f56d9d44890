//! The client's side of a SOCKS5 handshake, as a machine that is fed what the proxy
//! sends and answers with what to send and how much to read next.
use crate::decimal;
use crate::net_proxy::ParsedProxy;
use crate::text;
use vstd::prelude::*;

verus! {

/// How far the handshake is: what is to be read next.
#[derive(Debug, Clone, Copy, PartialEq, Eq, Structural)]
pub enum Phase {
    /// The proxy's choice of a method: two bytes.
    Method,
    /// The proxy's answer to the name and the password: two bytes.
    Auth,
    /// The head of the proxy's reply: four bytes.
    ReplyHead,
    /// The length of the host name in the proxy's reply: one byte.
    NameLength,
    /// What is left of the proxy's reply.
    ReplyRest { len: usize },
    /// The connection stands.
    Connected,
    /// The handshake failed.
    Failed,
}

impl Phase {
    /// The number of bytes to read in this phase.
    pub open spec fn expected(self) -> nat {
        match self {
            Phase::Method => 2,
            Phase::Auth => 2,
            Phase::ReplyHead => 4,
            Phase::NameLength => 1,
            Phase::ReplyRest { len } => len as nat,
            Phase::Connected => 0,
            Phase::Failed => 0,
        }
    }

    /// The handshake is over.
    pub open spec fn is_over(self) -> bool {
        self is Connected || self is Failed
    }

    /// The number of bytes to read in this phase.
    pub fn expected_len(&self) -> (r: usize)
        ensures
            r == self.expected(),
    {
        match *self {
            Phase::Method => 2,
            Phase::Auth => 2,
            Phase::ReplyHead => 4,
            Phase::NameLength => 1,
            Phase::ReplyRest { len } => len,
            Phase::Connected => 0,
            Phase::Failed => 0,
        }
    }
}

/// Why a handshake failed.
#[derive(Debug, Clone, Copy, PartialEq, Eq, Structural)]
pub enum SocksError {
    InvalidVersion,
    MethodNotAccepted,
    AuthFailed,
    HostnameTooLong,
    /// The proxy refused to connect, with this code.
    Rejected(u8),
}

/// The sort of failure that the caller is told of.
#[derive(Debug, Clone, Copy, PartialEq, Eq, Structural)]
pub enum FailureKind {
    Other,
    PermissionDenied,
    InvalidInput,
}

impl SocksError {
    /// The sort of failure that an error is.
    pub open spec fn failure_kind(self) -> FailureKind {
        match self {
            SocksError::AuthFailed => FailureKind::PermissionDenied,
            SocksError::HostnameTooLong => FailureKind::InvalidInput,
            _ => FailureKind::Other,
        }
    }

    /// The text of an error.
    pub open spec fn text(self) -> Seq<char> {
        match self {
            SocksError::InvalidVersion => "invalid socks5 version"@,
            SocksError::MethodNotAccepted => "socks5 method not accepted"@,
            SocksError::AuthFailed => "socks5 auth failed"@,
            SocksError::HostnameTooLong => "hostname too long"@,
            SocksError::Rejected(code) => "socks5 connect rejected: "@ + decimal::decimal(
                code as nat,
            ),
        }
    }

    /// The sort of failure that the error is.
    pub fn kind(&self) -> (r: FailureKind)
        ensures
            r == self.failure_kind(),
    {
        match *self {
            SocksError::AuthFailed => FailureKind::PermissionDenied,
            SocksError::HostnameTooLong => FailureKind::InvalidInput,
            _ => FailureKind::Other,
        }
    }

    /// The text of the error.
    pub fn message(&self) -> (r: String)
        ensures
            r@ == self.text(),
    {
        match *self {
            SocksError::InvalidVersion => "invalid socks5 version".to_owned(),
            SocksError::MethodNotAccepted => "socks5 method not accepted".to_owned(),
            SocksError::AuthFailed => "socks5 auth failed".to_owned(),
            SocksError::HostnameTooLong => "hostname too long".to_owned(),
            SocksError::Rejected(code) => {
                let mut r = "socks5 connect rejected: ".to_owned();
                decimal::push_decimal(&mut r, code as u64);
                r
            },
        }
    }
}

/// The client's first message: version 5, and the one method that it offers, which
/// is a name and a password where it has a name.
pub open spec fn greeting(username: Option<Seq<char>>) -> Seq<u8> {
    seq![
        5u8,
        1u8,
        if username is Some {
            2u8
        } else {
            0u8
        },
    ]
}

/// The UTF-8 bytes of an optional text; none for no text.
pub open spec fn bytes_or_none(s: Option<Seq<char>>) -> Seq<u8> {
    match s {
        Some(t) => vstd::utf8::encode_utf8(t),
        None => Seq::empty(),
    }
}

/// The message with the name and the password. A length is written in one byte,
/// modulo 256; the text goes out whole.
pub open spec fn auth_message(
    username: Option<Seq<char>>,
    password: Option<Seq<char>>,
) -> Seq<u8> {
    let user = bytes_or_none(username);
    let pass = bytes_or_none(password);
    seq![1u8, (user.len() % 256) as u8] + user + seq![(pass.len() % 256) as u8] + pass
}

/// The request to connect to a host by its name, with the port's high byte first.
pub open spec fn connect_message(host: Seq<char>, port: u16) -> Seq<u8> {
    let name = vstd::utf8::encode_utf8(host);
    seq![5u8, 1u8, 0u8, 3u8, name.len() as u8] + name + seq![(port / 256) as u8, (port % 256) as u8]
}

/// What the handshake is about: the credentials, if any, and the destination.
#[verifier::ext_equal]
pub struct SocksView {
    pub username: Option<Seq<char>>,
    pub password: Option<Seq<char>>,
    pub dest_host: Seq<char>,
    pub dest_port: u16,
}

/// What to do next: send some bytes (maybe none) and go on reading, or stop.
#[verifier::ext_equal]
pub enum SocksStep {
    /// Send these bytes, then read as many as the phase expects.
    GoOn { phase: Phase, send: Seq<u8> },
    /// The connection stands.
    Done,
    /// The handshake failed.
    Fail(SocksError),
}

impl SocksStep {
    /// The phase behind this step.
    pub open spec fn phase(self) -> Phase {
        match self {
            SocksStep::GoOn { phase, .. } => phase,
            SocksStep::Done => Phase::Connected,
            SocksStep::Fail(_) => Phase::Failed,
        }
    }
}

impl SocksView {
    /// The request to connect goes out, unless the host name is too long for it.
    pub open spec fn ask_to_connect(self) -> SocksStep {
        if vstd::utf8::encode_utf8(self.dest_host).len() > 255 {
            SocksStep::Fail(SocksError::HostnameTooLong)
        } else {
            SocksStep::GoOn {
                phase: Phase::ReplyHead,
                send: connect_message(self.dest_host, self.dest_port),
            }
        }
    }

    /// The answer to what the proxy sent.
    pub open spec fn answer(self, phase: Phase, bytes: Seq<u8>) -> SocksStep {
        match phase {
            Phase::Method => if bytes[0] != 5 {
                SocksStep::Fail(SocksError::InvalidVersion)
            } else if bytes[1] == 2 {
                SocksStep::GoOn {
                    phase: Phase::Auth,
                    send: auth_message(self.username, self.password),
                }
            } else if bytes[1] == 0 {
                self.ask_to_connect()
            } else {
                SocksStep::Fail(SocksError::MethodNotAccepted)
            },
            Phase::Auth => if bytes[1] == 0 {
                self.ask_to_connect()
            } else {
                SocksStep::Fail(SocksError::AuthFailed)
            },
            Phase::ReplyHead => if bytes[1] != 0 {
                SocksStep::Fail(SocksError::Rejected(bytes[1]))
            } else if bytes[3] == 1 {
                SocksStep::GoOn { phase: Phase::ReplyRest { len: 6 }, send: Seq::empty() }
            } else if bytes[3] == 3 {
                SocksStep::GoOn { phase: Phase::NameLength, send: Seq::empty() }
            } else if bytes[3] == 4 {
                SocksStep::GoOn { phase: Phase::ReplyRest { len: 18 }, send: Seq::empty() }
            } else {
                SocksStep::Done
            },
            Phase::NameLength => SocksStep::GoOn {
                phase: Phase::ReplyRest { len: (bytes[0] + 2) as usize },
                send: Seq::empty(),
            },
            Phase::ReplyRest { .. } => SocksStep::Done,
            Phase::Connected => SocksStep::Done,
            Phase::Failed => SocksStep::Fail(SocksError::InvalidVersion),
        }
    }
}

/// What the caller does next.
#[derive(Debug)]
pub enum SocksAction {
    /// Send these bytes (maybe none), then read exactly `read` bytes.
    Exchange { send: Vec<u8>, read: usize },
    /// The connection stands.
    Done,
    /// The handshake failed.
    Fail(SocksError),
}

/// An action carries out a step.
pub open spec fn carries_out(action: SocksAction, step: SocksStep) -> bool {
    match (action, step) {
        (SocksAction::Exchange { send, read }, SocksStep::GoOn { phase, send: bytes }) => {
            send@ == bytes && read == phase.expected()
        },
        (SocksAction::Done, SocksStep::Done) => true,
        (SocksAction::Fail(e), SocksStep::Fail(error)) => e == error,
        _ => false,
    }
}

/// A SOCKS5 handshake.
#[derive(Debug)]
pub struct Socks5Connect {
    pub username: Option<String>,
    pub password: Option<String>,
    pub dest_host: String,
    pub dest_port: u16,
    pub phase: Phase,
}

impl View for Socks5Connect {
    type V = SocksView;

    open spec fn view(&self) -> SocksView {
        SocksView {
            username: text::opt_view(self.username),
            password: text::opt_view(self.password),
            dest_host: self.dest_host@,
            dest_port: self.dest_port,
        }
    }
}

fn push_text(out: &mut Vec<u8>, s: &Option<String>)
    ensures
        final(out)@ == old(out)@ + seq![(bytes_or_none(text::opt_view(*s)).len() % 256) as u8]
            + bytes_or_none(text::opt_view(*s)),
{
    match s {
        Some(t) => {
            let bytes = t.as_str().as_bytes();
            out.push((bytes.len() % 256) as u8);
            out.extend_from_slice(bytes);
        },
        None => {
            out.push(0);
        },
    }
    assert(out@ == old(out)@ + seq![(bytes_or_none(text::opt_view(*s)).len() % 256) as u8]
        + bytes_or_none(text::opt_view(*s)));
}

impl Socks5Connect {
    /// The handshake with `proxy` for a connection to `dest_host` and `dest_port`.
    pub fn new(proxy: &ParsedProxy, dest_host: &str, dest_port: u16) -> (r: Socks5Connect)
        ensures
            r@ == (SocksView {
                username: proxy@.username,
                password: proxy@.password,
                dest_host: dest_host@,
                dest_port,
            }),
            r.phase is Method,
    {
        Socks5Connect {
            username: text::copy_text(&proxy.username),
            password: text::copy_text(&proxy.password),
            dest_host: dest_host.to_owned(),
            dest_port,
            phase: Phase::Method,
        }
    }

    /// What the client sends first, to be followed by a read of two bytes.
    pub fn greet(&self) -> (r: Vec<u8>)
        ensures
            r@ == greeting(self@.username),
    {
        let method: u8 = if self.username.is_some() {
            2
        } else {
            0
        };
        let r: Vec<u8> = vec![5, 1, method];
        assert(r@ == greeting(self@.username));
        r
    }

    fn connect_action(&mut self) -> (action: SocksAction)
        ensures
            final(self)@ == old(self)@,
            carries_out(action, old(self)@.ask_to_connect()),
            final(self).phase == old(self)@.ask_to_connect().phase(),
    {
        let host = self.dest_host.as_str().as_bytes();
        if host.len() > 255 {
            self.phase = Phase::Failed;
            return SocksAction::Fail(SocksError::HostnameTooLong);
        }
        let mut send: Vec<u8> = vec![5, 1, 0, 3, host.len() as u8];
        send.extend_from_slice(host);
        send.push((self.dest_port / 256) as u8);
        send.push((self.dest_port % 256) as u8);
        assert(send@ == connect_message(self.dest_host@, self.dest_port));
        self.phase = Phase::ReplyHead;
        SocksAction::Exchange { send, read: 4 }
    }

    fn auth_action(&mut self) -> (action: SocksAction)
        ensures
            final(self)@ == old(self)@,
            final(self).phase is Auth,
            action matches SocksAction::Exchange { send, read } && read == 2 && send@
                == auth_message(old(self)@.username, old(self)@.password),
    {
        let mut send: Vec<u8> = vec![1];
        push_text(&mut send, &self.username);
        push_text(&mut send, &self.password);
        assert(send@ == auth_message(self@.username, self@.password));
        self.phase = Phase::Auth;
        SocksAction::Exchange { send, read: 2 }
    }

    /// Takes in what the proxy sent: as many bytes as the phase expects.
    pub fn feed(&mut self, bytes: &[u8]) -> (action: SocksAction)
        requires
            !old(self).phase.is_over(),
            bytes@.len() == old(self).phase.expected(),
        ensures
            final(self)@ == old(self)@,
            final(self).phase == old(self)@.answer(old(self).phase, bytes@).phase(),
            carries_out(action, old(self)@.answer(old(self).phase, bytes@)),
    {
        match self.phase {
            Phase::Method => {
                if bytes[0] != 5 {
                    self.phase = Phase::Failed;
                    SocksAction::Fail(SocksError::InvalidVersion)
                } else if bytes[1] == 2 {
                    self.auth_action()
                } else if bytes[1] == 0 {
                    self.connect_action()
                } else {
                    self.phase = Phase::Failed;
                    SocksAction::Fail(SocksError::MethodNotAccepted)
                }
            },
            Phase::Auth => {
                if bytes[1] == 0 {
                    self.connect_action()
                } else {
                    self.phase = Phase::Failed;
                    SocksAction::Fail(SocksError::AuthFailed)
                }
            },
            Phase::ReplyHead => {
                if bytes[1] != 0 {
                    self.phase = Phase::Failed;
                    return SocksAction::Fail(SocksError::Rejected(bytes[1]));
                }
                if bytes[3] == 1 {
                    self.phase = Phase::ReplyRest { len: 6 };
                    SocksAction::Exchange { send: Vec::new(), read: 6 }
                } else if bytes[3] == 3 {
                    self.phase = Phase::NameLength;
                    SocksAction::Exchange { send: Vec::new(), read: 1 }
                } else if bytes[3] == 4 {
                    self.phase = Phase::ReplyRest { len: 18 };
                    SocksAction::Exchange { send: Vec::new(), read: 18 }
                } else {
                    self.phase = Phase::Connected;
                    SocksAction::Done
                }
            },
            Phase::NameLength => {
                let len: usize = bytes[0] as usize + 2;
                self.phase = Phase::ReplyRest { len };
                SocksAction::Exchange { send: Vec::new(), read: len }
            },
            Phase::ReplyRest { .. } => {
                self.phase = Phase::Connected;
                SocksAction::Done
            },
            Phase::Connected => SocksAction::Done,
            Phase::Failed => SocksAction::Fail(SocksError::InvalidVersion),
        }
    }
}

/// The whole handshake: the step that is reached by answering each of `received` in
/// turn, from `phase` on. It stops early where a step ends the handshake.
pub open spec fn outcome(view: SocksView, phase: Phase, received: Seq<Seq<u8>>) -> SocksStep
    recommends
        received.len() > 0,
    decreases received.len(),
{
    let step = view.answer(phase, received[0]);
    if received.len() <= 1 || step.phase().is_over() {
        step
    } else {
        outcome(view, step.phase(), received.drop_first())
    }
}

/// The request to connect goes out only after the proxy took the offer without
/// credentials or accepted the credentials.
pub proof fn request_follows_acceptance(view: SocksView, phase: Phase, bytes: Seq<u8>)
    requires
        view.answer(phase, bytes) matches SocksStep::GoOn { phase: next, .. }
            && next is ReplyHead,
    ensures
        (phase is Method && bytes[0] == 5 && bytes[1] == 0) || (phase is Auth && bytes[1] == 0),
        view.answer(phase, bytes)->send == connect_message(view.dest_host, view.dest_port),
        vstd::utf8::encode_utf8(view.dest_host).len() <= 255,
{
}

/// The name and the password go out only where the proxy asks for them.
pub proof fn credentials_are_sent_on_demand(view: SocksView, phase: Phase, bytes: Seq<u8>)
    requires
        view.answer(phase, bytes) matches SocksStep::GoOn { phase: next, .. } && next is Auth,
    ensures
        phase is Method && bytes[0] == 5 && bytes[1] == 2,
        view.answer(phase, bytes)->send == auth_message(view.username, view.password),
{
}

/// The reply heads among what the proxy sent: those read in the phase for them.
pub open spec fn reply_accepted(view: SocksView, phase: Phase, received: Seq<Seq<u8>>) -> bool
    decreases received.len(),
{
    received.len() > 0 && {
        ||| phase is ReplyHead && received[0][1] == 0
        ||| {
            let step = view.answer(phase, received[0]);
            !step.phase().is_over() && reply_accepted(view, step.phase(), received.drop_first())
        }
    }
}

/// A handshake succeeds only where the proxy's reply says that the connection
/// stands: code zero, in the head of the reply.
pub proof fn success_needs_accepted_reply(
    view: SocksView,
    phase: Phase,
    received: Seq<Seq<u8>>,
)
    requires
        received.len() > 0,
        phase is Method || phase is Auth || phase is ReplyHead,
        outcome(view, phase, received) is Done,
    ensures
        reply_accepted(view, phase, received),
    decreases received.len(),
{
    let step = view.answer(phase, received[0]);
    if phase is Method || phase is Auth {
        assert(!(step is Done));
        if received.len() > 1 && !step.phase().is_over() {
            success_needs_accepted_reply(view, step.phase(), received.drop_first());
        }
    }
}

/// A refusal in the head of the reply ends the handshake with the proxy's code.
pub proof fn refusal_is_reported(view: SocksView, head: Seq<u8>)
    requires
        head.len() == 4,
        head[1] != 0,
    ensures
        view.answer(Phase::ReplyHead, head) == SocksStep::Fail(SocksError::Rejected(head[1])),
{
}

/// The proxy's reply is read to its end before the connection is used: the bound
/// address behind the head has 6 bytes (IPv4), 18 (IPv6), or its name's length, the
/// name and 2 more; a head that announces none of these stands alone.
pub proof fn reply_is_read_to_its_end(view: SocksView, head: Seq<u8>, length: Seq<u8>, rest: Seq<u8>)
    requires
        head.len() == 4,
        head[1] == 0,
        length.len() == 1,
    ensures
        head[3] == 1 ==> {
            let step = view.answer(Phase::ReplyHead, head);
            step.phase().expected() == 6 && view.answer(step.phase(), rest) is Done
        },
        head[3] == 4 ==> {
            let step = view.answer(Phase::ReplyHead, head);
            step.phase().expected() == 18 && view.answer(step.phase(), rest) is Done
        },
        head[3] == 3 ==> {
            let step = view.answer(Phase::ReplyHead, head);
            let next = view.answer(step.phase(), length);
            &&& step.phase().expected() == 1
            &&& next.phase().expected() == length[0] + 2
            &&& view.answer(next.phase(), rest) is Done
        },
        head[3] != 1 && head[3] != 3 && head[3] != 4 ==> view.answer(Phase::ReplyHead, head) is Done,
{
}

/// What a proxy sends that accepts the request to connect: the head of its reply, and
/// what the head announces.
pub open spec fn is_acceptance(reply: Seq<Seq<u8>>) -> bool {
    &&& reply.len() > 0
    &&& reply[0][1] == 0
    &&& reply.len() == (if reply[0][3] == 1 || reply[0][3] == 4 {
        2int
    } else if reply[0][3] == 3 {
        3
    } else {
        1
    })
}

proof fn acceptance_ends_well(view: SocksView, reply: Seq<Seq<u8>>)
    requires
        is_acceptance(reply),
    ensures
        outcome(view, Phase::ReplyHead, reply) is Done,
{
    reveal_with_fuel(outcome, 3);
    if reply.len() > 1 {
        assert(reply.drop_first()[0] == reply[1]);
    }
    if reply.len() > 2 {
        assert(reply.drop_first().drop_first()[0] == reply[2]);
    }
}

/// A proxy that accepts gives a connection, to every host whose name fits: with or
/// without a name and a password, and whatever address its reply holds.
pub proof fn accepting_proxy_gives_connection(view: SocksView, reply: Seq<Seq<u8>>, version: u8)
    requires
        vstd::utf8::encode_utf8(view.dest_host).len() <= 255,
        is_acceptance(reply),
    ensures
        outcome(view, Phase::Method, seq![seq![5u8, 0u8]] + reply) is Done,
        outcome(view, Phase::Method, seq![seq![5u8, 2u8], seq![version, 0u8]] + reply) is Done,
{
    acceptance_ends_well(view, reply);
    let open = seq![seq![5u8, 0u8]] + reply;
    assert(open[0] == seq![5u8, 0u8]);
    assert(open.drop_first() == reply);
    let guarded = seq![seq![5u8, 2u8], seq![version, 0u8]] + reply;
    assert(guarded[0] == seq![5u8, 2u8]);
    let rest = guarded.drop_first();
    assert(rest[0] == seq![version, 0u8]);
    assert(rest.drop_first() == reply);
    assert(outcome(view, Phase::Auth, rest) is Done);
}

/// The client offers one method: a name and a password where it has a name, none
/// otherwise.
pub proof fn greeting_offers_one_method(username: Option<Seq<char>>)
    ensures
        greeting(username).len() == 3,
        greeting(username)[0] == 5,
        greeting(username)[1] == 1,
        greeting(username)[2] == 2 <==> username is Some,
        greeting(username)[2] == 0 <==> username is None,
{
}

/// A message to connect that asks for `host` and `port`: version 5, the command to
/// connect, a host by its name, the name's length and the name, and the port in two
/// bytes, the high one first.
pub open spec fn asks_for(m: Seq<u8>, host: Seq<char>, port: u16) -> bool {
    &&& m.len() == 7 + m[4]
    &&& m[0] == 5
    &&& m[1] == 1
    &&& m[2] == 0
    &&& m[3] == 3
    &&& m.subrange(5, 5 + m[4]) == vstd::utf8::encode_utf8(host)
    &&& 256 * m[m.len() - 2] + m[m.len() - 1] == port
}

/// The request to connect carries its destination, of every host whose name fits and of
/// every port.
pub proof fn request_carries_destination(host: Seq<char>, port: u16)
    requires
        vstd::utf8::encode_utf8(host).len() <= 255,
    ensures
        asks_for(connect_message(host, port), host, port),
{
    let name = vstd::utf8::encode_utf8(host);
    let m = connect_message(host, port);
    let n = name.len() as int;
    assert(m.len() == 7 + n);
    assert(m[4] == n);
    assert(m.subrange(5, 5 + n) == name);
    assert(m[5 + n] == (port / 256) as u8);
    assert(m[6 + n] == (port % 256) as u8);
}

/// Once the proxy takes the offer without credentials, or accepts the credentials, it is
/// asked for the destination; a host whose name does not fit ends the handshake.
pub proof fn destination_is_asked_for(view: SocksView, bytes: Seq<u8>)
    requires
        bytes.len() == 2,
    ensures
        bytes[0] == 5 && bytes[1] == 0 ==> match view.answer(Phase::Method, bytes) {
            SocksStep::GoOn { phase, send } => {
                &&& vstd::utf8::encode_utf8(view.dest_host).len() <= 255
                &&& phase is ReplyHead
                &&& asks_for(send, view.dest_host, view.dest_port)
            },
            SocksStep::Done => false,
            SocksStep::Fail(e) => vstd::utf8::encode_utf8(view.dest_host).len() > 255
                && e is HostnameTooLong,
        },
        bytes[1] == 0 ==> match view.answer(Phase::Auth, bytes) {
            SocksStep::GoOn { phase, send } => {
                &&& vstd::utf8::encode_utf8(view.dest_host).len() <= 255
                &&& phase is ReplyHead
                &&& asks_for(send, view.dest_host, view.dest_port)
            },
            SocksStep::Done => false,
            SocksStep::Fail(e) => vstd::utf8::encode_utf8(view.dest_host).len() > 255
                && e is HostnameTooLong,
        },
{
    if vstd::utf8::encode_utf8(view.dest_host).len() <= 255 {
        request_carries_destination(view.dest_host, view.dest_port);
    }
}

/// A message that carries these bytes as the name and the password, each behind its
/// length modulo 256.
pub open spec fn shows_credentials(m: Seq<u8>, user: Seq<u8>, pass: Seq<u8>) -> bool {
    &&& m.len() == 3 + user.len() + pass.len()
    &&& m[0] == 1
    &&& m[1] == user.len() % 256
    &&& m.subrange(2, 2 + user.len() as int) == user
    &&& m[2 + user.len() as int] == pass.len() % 256
    &&& m.skip(3 + user.len() as int) == pass
}

/// A proxy that asks for a name and a password is shown those that the client has; what
/// it has not is empty.
pub proof fn credentials_are_shown(view: SocksView, bytes: Seq<u8>)
    requires
        bytes.len() == 2,
        bytes[0] == 5,
        bytes[1] == 2,
    ensures
        view.answer(Phase::Method, bytes) matches SocksStep::GoOn { phase, send } && phase is Auth
            && shows_credentials(
            send,
            match view.username {
                Some(user) => vstd::utf8::encode_utf8(user),
                None => Seq::empty(),
            },
            match view.password {
                Some(pass) => vstd::utf8::encode_utf8(pass),
                None => Seq::empty(),
            },
        ),
{
    let user = bytes_or_none(view.username);
    let pass = bytes_or_none(view.password);
    let m = auth_message(view.username, view.password);
    assert(m.subrange(2, 2 + user.len() as int) == user);
    assert(m.skip(3 + user.len() as int) == pass);
}

/// A handshake is refused for these reasons and no others, before the reply: a version
/// other than 5, a method that was not offered, credentials that were not accepted, and
/// a host whose name is too long.
pub proof fn refusals_have_their_reason(view: SocksView, bytes: Seq<u8>)
    requires
        bytes.len() == 2,
    ensures
        ({
            let fits = vstd::utf8::encode_utf8(view.dest_host).len() <= 255;
            let method = view.answer(Phase::Method, bytes);
            let auth = view.answer(Phase::Auth, bytes);
            &&& bytes[0] != 5 <==> method == SocksStep::Fail(SocksError::InvalidVersion)
            &&& bytes[0] == 5 && bytes[1] != 0 && bytes[1] != 2
                <==> method == SocksStep::Fail(SocksError::MethodNotAccepted)
            &&& bytes[1] != 0 <==> auth == SocksStep::Fail(SocksError::AuthFailed)
            &&& bytes[0] == 5 && bytes[1] == 0 && !fits <==> method == SocksStep::Fail(SocksError::HostnameTooLong)
            &&& bytes[1] == 0 && !fits <==> auth == SocksStep::Fail(SocksError::HostnameTooLong)
            &&& !(method is Done)
            &&& !(auth is Done)
        }),
{
}

/// The report of a refusal tells the proxy's code.
pub proof fn refusal_tells_the_code(code: u8)
    ensures
        ({
            let report = SocksError::Rejected(code).text();
            let front = "socks5 connect rejected: "@;
            &&& text::starts_with(report, front)
            &&& decimal::number(report.skip(front.len() as int)) == code
        }),
{
    let front = "socks5 connect rejected: "@;
    let digits = decimal::decimal(code as nat);
    decimal::decimal_writes_number(code as nat);
    assert((front + digits).subrange(0, front.len() as int) == front);
    assert((front + digits).skip(front.len() as int) == digits);
}

/// What is read in each phase has its fixed length.
pub proof fn phases_have_their_length(len: usize)
    ensures
        Phase::Method.expected() == 2,
        Phase::Auth.expected() == 2,
        Phase::ReplyHead.expected() == 4,
        Phase::NameLength.expected() == 1,
        (Phase::ReplyRest { len }).expected() == len,
{
}

} // verus!
