//! The handshake of one client session as a state machine without I/O.
//!
//! A session asks for one action at a time. The driver performs it and
//! reports what happened as an event; the session answers with the next
//! action. `step` is the whole machine as a mathematical function, and the
//! laws at the end of this file are proved of it.

use crate::codec::{
    be_value, choose_method, connect_reply, method_reply, parse_greeting, parse_request,
    utf8_error, AddressView, ConnectOutcome, ConnectRequestView, DecodeFailure, GreetingView,
    MethodChoice, TargetAddress, ATYP_DOMAIN, ATYP_IPV4, ATYP_IPV6, CONNECT, NO_AUTHENTICATION,
    SOCKS_VERSION,
};
use crate::error::{protocol_failure, ErrorView, UnExpectedError};
use vstd::prelude::*;
use vstd::utf8::{decode_utf8, valid_utf8};

verus! {

/// Where a session stands. In every state but the last two exactly one
/// action is outstanding.
#[derive(Debug, Clone, Copy, PartialEq, Eq, Structural)]
pub enum State {
    /// Reading the version and the method count.
    AwaitingGreeting,
    /// Reading the offered methods.
    NegotiatingMethod,
    /// Writing the refusal that precedes the method reply.
    RefusingMethods,
    /// Writing the method reply.
    AcceptingMethod,
    /// Reading the request header.
    AwaitingRequest,
    /// Reading the address that the header announced.
    AwaitingAddress,
    /// Waiting for the addresses behind a domain name. The command is
    /// judged once the target is known.
    ResolvingTarget { command: u8 },
    /// Writing the failure reply for a name without an address.
    RejectingTarget,
    /// Waiting for the connection to the target.
    Connecting,
    /// Writing the success reply.
    ConfirmingConnect,
    /// The handshake succeeded: the connection belongs to the relay.
    ReplySent,
    /// The session is over.
    Failed,
}

/// What the driver reports back.
#[derive(Debug)]
pub enum Event {
    /// The bytes that the read produced: fewer than asked for only where
    /// the stream ended.
    Bytes(Vec<u8>),
    /// The write went through.
    Written,
    /// The addresses behind the name, in the order the resolver gave them.
    Resolved(Vec<TargetAddress>),
    /// The connection to the target stands.
    Connected,
    /// The outstanding action failed.
    IoFailed(std::io::Error),
}

/// An event as a mathematical value.
pub enum EventView {
    Bytes(Seq<u8>),
    Written,
    Resolved(Seq<TargetAddress>),
    Connected,
    IoFailed(std::io::Error),
}

impl View for Event {
    type V = EventView;

    open spec fn view(&self) -> EventView {
        match *self {
            Event::Bytes(bytes) => EventView::Bytes(bytes@),
            Event::Written => EventView::Written,
            Event::Resolved(candidates) => EventView::Resolved(candidates@),
            Event::Connected => EventView::Connected,
            Event::IoFailed(e) => EventView::IoFailed(e),
        }
    }
}

/// What the session asks the driver to do next.
#[derive(Debug)]
pub enum Action {
    /// Read exactly `len` bytes from the client.
    Read { len: usize },
    /// Write `bytes` to the client.
    Write { bytes: Vec<u8> },
    /// Look up the addresses of `name` for `port`.
    Resolve { name: String, port: u16 },
    /// Open a TCP connection to `target`.
    Connect { target: TargetAddress },
    /// Relay bytes between the client and the target.
    Relay,
    /// Drop the connection and report `error`.
    Close { error: UnExpectedError },
}

/// An action as a mathematical value.
pub enum ActionView {
    Read { len: nat },
    Write { bytes: Seq<u8> },
    Resolve { name: Seq<char>, port: u16 },
    Connect { target: TargetAddress },
    Relay,
    Close { error: ErrorView },
}

impl View for Action {
    type V = ActionView;

    open spec fn view(&self) -> ActionView {
        match *self {
            Action::Read { len } => ActionView::Read { len: len as nat },
            Action::Write { bytes } => ActionView::Write { bytes: bytes@ },
            Action::Resolve { name, port } => ActionView::Resolve { name: name@, port },
            Action::Connect { target } => ActionView::Connect { target },
            Action::Relay => ActionView::Relay,
            Action::Close { error } => ActionView::Close { error: error@ },
        }
    }
}

/// One client session as a mathematical value: its state, the bytes read so
/// far of the message that is being read, and the length of the outstanding
/// read.
pub struct SessionView {
    pub state: State,
    pub inbox: Seq<u8>,
    pub wanted: nat,
}

/// The number of bytes that the first read of a greeting asks for.
pub const GREETING_HEADER_LEN: usize = 2;

/// The number of bytes that the first read of a request asks for.
pub const REQUEST_HEADER_LEN: usize = 4;

impl State {
    /// The session has ended, in success or in failure.
    pub open spec fn spec_is_terminal(self) -> bool {
        self == State::ReplySent || self == State::Failed
    }

    /// The session has ended, in success or in failure.
    #[verifier::when_used_as_spec(spec_is_terminal)]
    pub fn is_terminal(self) -> (b: bool)
        ensures
            b == self.spec_is_terminal(),
    {
        match self {
            State::ReplySent => true,
            State::Failed => true,
            _ => false,
        }
    }

    /// The session is still negotiating the method.
    pub open spec fn in_greeting(self) -> bool {
        self == State::AwaitingGreeting || self == State::NegotiatingMethod || self
            == State::RefusingMethods || self == State::AcceptingMethod
    }
}

/// A session in `state` with no read outstanding.
pub open spec fn resting(state: State) -> SessionView {
    SessionView { state, inbox: Seq::empty(), wanted: 0 }
}

/// A session in `state` that waits for the first `len` bytes of a message.
pub open spec fn reading(state: State, len: nat) -> SessionView {
    SessionView { state, inbox: Seq::empty(), wanted: len }
}

/// A fresh session and its first action: read the greeting header.
pub open spec fn opened() -> (SessionView, ActionView) {
    (
        reading(State::AwaitingGreeting, GREETING_HEADER_LEN as nat),
        ActionView::Read { len: GREETING_HEADER_LEN as nat },
    )
}

/// The end of a session in failure.
pub open spec fn failed(error: ErrorView) -> (SessionView, ActionView) {
    (resting(State::Failed), ActionView::Close { error })
}

/// The answer to a greeting. A client that does not offer "no
/// authentication" is told so, and is then accepted all the same: the
/// refusal is advisory.
pub open spec fn answered(choice: MethodChoice) -> (SessionView, ActionView) {
    match choice {
        MethodChoice::NoAuthentication => (
            resting(State::AcceptingMethod),
            ActionView::Write { bytes: method_reply(MethodChoice::NoAuthentication) },
        ),
        MethodChoice::NoAcceptableMethods => (
            resting(State::RefusingMethods),
            ActionView::Write { bytes: method_reply(MethodChoice::NoAcceptableMethods) },
        ),
    }
}

/// The step once the target is known: only CONNECT is served, and any other
/// command ends the session without a reply.
pub open spec fn dialled(command: u8, target: TargetAddress) -> (SessionView, ActionView) {
    if command == CONNECT {
        (resting(State::Connecting), ActionView::Connect { target })
    } else {
        failed(protocol_failure())
    }
}

/// The step on the bytes of a greeting. A short read ends the session.
pub open spec fn greeted(s: SessionView, bytes: Seq<u8>) -> (SessionView, ActionView) {
    if bytes.len() != s.wanted {
        failed(protocol_failure())
    } else {
        match parse_greeting(s.inbox + bytes) {
            Ok(greeting) => answered(choose_method(greeting.methods)),
            Err(DecodeFailure::Incomplete { missing }) => (
                SessionView {
                    state: State::NegotiatingMethod,
                    inbox: s.inbox + bytes,
                    wanted: missing,
                },
                ActionView::Read { len: missing },
            ),
            Err(_) => failed(protocol_failure()),
        }
    }
}

/// The step on the bytes of a request. A short read ends the session. A
/// numeric address is dialled at once; a domain name is resolved first.
pub open spec fn requested(s: SessionView, bytes: Seq<u8>) -> (SessionView, ActionView) {
    if bytes.len() != s.wanted {
        failed(protocol_failure())
    } else {
        match parse_request(s.inbox + bytes) {
            Ok(request) => match request.address {
                AddressView::V4 { addr, port } => dialled(
                    request.header.command,
                    TargetAddress::V4 { addr, port },
                ),
                AddressView::V6 { addr, port } => dialled(
                    request.header.command,
                    TargetAddress::V6 { addr, port, flowinfo: 0, scope_id: 0 },
                ),
                AddressView::Domain { name, port } => (
                    resting(State::ResolvingTarget { command: request.header.command }),
                    ActionView::Resolve { name, port },
                ),
            },
            Err(DecodeFailure::Incomplete { missing }) => (
                SessionView {
                    state: State::AwaitingAddress,
                    inbox: s.inbox + bytes,
                    wanted: missing,
                },
                ActionView::Read { len: missing },
            ),
            Err(DecodeFailure::InvalidEncoding { source }) => failed(ErrorView::Utf8 { source }),
            Err(_) => failed(protocol_failure()),
        }
    }
}

/// The step on what the resolver found: the first address is the target,
/// and a name without an address is answered with the failure reply.
pub open spec fn resolved(command: u8, candidates: Seq<TargetAddress>) -> (
    SessionView,
    ActionView,
) {
    if candidates.len() == 0 {
        (
            resting(State::RejectingTarget),
            ActionView::Write { bytes: connect_reply(ConnectOutcome::Failed) },
        )
    } else {
        dialled(command, candidates[0])
    }
}

/// The step of a session that negotiates the method.
pub open spec fn negotiate(s: SessionView, e: EventView) -> (SessionView, ActionView) {
    match (s.state, e) {
        (_, EventView::IoFailed(source)) => failed(ErrorView::Io { source }),
        (State::AwaitingGreeting, EventView::Bytes(bytes)) => greeted(s, bytes),
        (State::NegotiatingMethod, EventView::Bytes(bytes)) => greeted(s, bytes),
        (State::RefusingMethods, EventView::Written) => answered(MethodChoice::NoAuthentication),
        (State::AcceptingMethod, EventView::Written) => (
            reading(State::AwaitingRequest, REQUEST_HEADER_LEN as nat),
            ActionView::Read { len: REQUEST_HEADER_LEN as nat },
        ),
        _ => failed(protocol_failure()),
    }
}

/// The step of a session that serves the request.
pub open spec fn serve(s: SessionView, e: EventView) -> (SessionView, ActionView) {
    match (s.state, e) {
        (_, EventView::IoFailed(source)) => failed(ErrorView::Io { source }),
        (State::AwaitingRequest, EventView::Bytes(bytes)) => requested(s, bytes),
        (State::AwaitingAddress, EventView::Bytes(bytes)) => requested(s, bytes),
        (State::ResolvingTarget { command }, EventView::Resolved(candidates)) => resolved(
            command,
            candidates,
        ),
        (State::RejectingTarget, EventView::Written) => failed(protocol_failure()),
        (State::Connecting, EventView::Connected) => (
            resting(State::ConfirmingConnect),
            ActionView::Write { bytes: connect_reply(ConnectOutcome::Succeeded) },
        ),
        (State::ConfirmingConnect, EventView::Written) => (
            resting(State::ReplySent),
            ActionView::Relay,
        ),
        _ => failed(protocol_failure()),
    }
}

/// The machine: the state after `e` and the action that the session asks
/// for next. An event that the session did not ask for ends it with a
/// protocol error. A session that has ended stays as it is, whatever comes.
pub open spec fn step(s: SessionView, e: EventView) -> (SessionView, ActionView) {
    if s.state == State::ReplySent {
        (s, ActionView::Relay)
    } else if s.state == State::Failed {
        (s, ActionView::Close { error: protocol_failure() })
    } else if s.state.in_greeting() {
        negotiate(s, e)
    } else {
        serve(s, e)
    }
}

/// The session that has sent the method reply and waits for the request
/// header.
pub open spec fn awaiting_request() -> SessionView {
    reading(State::AwaitingRequest, REQUEST_HEADER_LEN as nat)
}

/// The two bytes that open a greeting with `count` methods.
pub open spec fn greeting_header(count: nat) -> Seq<u8> {
    seq![SOCKS_VERSION, count as u8]
}

/// The four bytes that open a request.
pub open spec fn request_header(command: u8, reserved: u8, address_type: u8) -> Seq<u8> {
    seq![SOCKS_VERSION, command, reserved, address_type]
}

/// A greeting that offers "no authentication" among its methods is answered
/// with the bytes `05 00`, and the session then reads the request.
pub proof fn no_authentication_offer_is_accepted(methods: Seq<u8>)
    requires
        methods.len() <= 255,
        methods.contains(NO_AUTHENTICATION),
    ensures
        ({
            let (s1, a1) = step(opened().0, EventView::Bytes(greeting_header(methods.len())));
            let (s2, a2) = step(s1, EventView::Bytes(methods));
            let (s3, a3) = step(s2, EventView::Written);
            &&& a1 == ActionView::Read { len: methods.len() }
            &&& a2 == ActionView::Write { bytes: seq![0x05u8, 0x00u8] }
            &&& (s3, a3) == (awaiting_request(), ActionView::Read { len: 4 })
        }),
{
    let header = greeting_header(methods.len());
    assert((header + methods).subrange(2, 2 + methods.len() as int) == methods);
}

/// A greeting that does not offer "no authentication" is told so with the
/// bytes `05 FF`, is then sent `05 00` all the same, and the session reads the
/// request: the refusal does not end the session.
pub proof fn refusal_is_advisory(methods: Seq<u8>)
    requires
        methods.len() <= 255,
        !methods.contains(NO_AUTHENTICATION),
    ensures
        ({
            let (s1, a1) = step(opened().0, EventView::Bytes(greeting_header(methods.len())));
            let (s2, a2) = if methods.len() == 0 {
                (s1, a1)
            } else {
                step(s1, EventView::Bytes(methods))
            };
            let (s3, a3) = step(s2, EventView::Written);
            let (s4, a4) = step(s3, EventView::Written);
            &&& methods.len() > 0 ==> a1 == ActionView::Read { len: methods.len() }
            &&& a2 == ActionView::Write { bytes: seq![0x05u8, 0xFFu8] }
            &&& a3 == ActionView::Write { bytes: seq![0x05u8, 0x00u8] }
            &&& (s4, a4) == (awaiting_request(), ActionView::Read { len: 4 })
        }),
{
}

/// A CONNECT request for an IPv4 address is dialled at the address and port
/// that its six bytes spell. Once the connection stands the session writes
/// the success reply `05 00 00 01 00 00 00 00 00 00`, and only then hands the
/// connection to the relay.
pub proof fn ipv4_connect_is_confirmed(reserved: u8, payload: Seq<u8>)
    requires
        payload.len() == 6,
    ensures
        ({
            let (s1, a1) = step(
                awaiting_request(),
                EventView::Bytes(request_header(CONNECT, reserved, ATYP_IPV4)),
            );
            let (s2, a2) = step(s1, EventView::Bytes(payload));
            let (s3, a3) = step(s2, EventView::Connected);
            let (s4, a4) = step(s3, EventView::Written);
            &&& a1 == ActionView::Read { len: 6 }
            &&& a2 == ActionView::Connect {
                target: TargetAddress::V4 {
                    addr: be_value(payload.subrange(0, 4)) as u32,
                    port: be_value(payload.subrange(4, 6)) as u16,
                },
            }
            &&& a3 == ActionView::Write { bytes: seq![0x05u8, 0x00, 0x00, 0x01, 0, 0, 0, 0, 0, 0] }
            &&& a4 == ActionView::Relay
            &&& s4.state == State::ReplySent
        }),
{
    let header = request_header(CONNECT, reserved, ATYP_IPV4);
    assert((header + payload).skip(4) == payload);
}

/// A request for a domain name that resolves to no address is answered with
/// the failure reply `05 08 00 01 00 00 00 00 00 00`, whatever its command,
/// and the session then ends with a protocol error: nothing is dialled and
/// nothing is relayed.
pub proof fn unresolved_name_is_rejected(command: u8, reserved: u8, name: Seq<u8>, port: Seq<u8>)
    requires
        name.len() <= 255,
        valid_utf8(name),
        port.len() == 2,
    ensures
        ({
            let (s1, a1) = step(
                awaiting_request(),
                EventView::Bytes(request_header(command, reserved, ATYP_DOMAIN)),
            );
            let (s2, a2) = step(s1, EventView::Bytes(seq![name.len() as u8]));
            let (s3, a3) = step(s2, EventView::Bytes(name + port));
            let (s4, a4) = step(s3, EventView::Resolved(Seq::empty()));
            let (s5, a5) = step(s4, EventView::Written);
            &&& a1 == ActionView::Read { len: 1 }
            &&& a2 == ActionView::Read { len: name.len() + 2 }
            &&& a3 == ActionView::Resolve {
                name: decode_utf8(name),
                port: be_value(port) as u16,
            }
            &&& a4 == ActionView::Write { bytes: seq![0x05u8, 0x08, 0x00, 0x01, 0, 0, 0, 0, 0, 0] }
            &&& (s5, a5) == failed(protocol_failure())
        }),
{
    let header = request_header(command, reserved, ATYP_DOMAIN);
    let length = seq![name.len() as u8];
    let payload = (header + length + (name + port)).skip(4);
    assert(payload.subrange(1, 1 + name.len() as int) == name);
    assert(payload.subrange(1 + name.len() as int, 3 + name.len() as int) == port);
}

/// A request for a domain name that is not UTF-8 text ends the session with
/// the encoding failure once the name is read: no reply is written and
/// nothing is resolved.
pub proof fn name_that_is_not_text_gets_no_reply(
    command: u8,
    reserved: u8,
    name: Seq<u8>,
    port: Seq<u8>,
)
    requires
        name.len() <= 255,
        !valid_utf8(name),
        port.len() == 2,
    ensures
        ({
            let (s1, a1) = step(
                awaiting_request(),
                EventView::Bytes(request_header(command, reserved, ATYP_DOMAIN)),
            );
            let (s2, a2) = step(s1, EventView::Bytes(seq![name.len() as u8]));
            step(s2, EventView::Bytes(name + port)) == failed(
                ErrorView::Utf8 { source: utf8_error(name) },
            )
        }),
{
    let header = request_header(command, reserved, ATYP_DOMAIN);
    let length = seq![name.len() as u8];
    let payload = (header + length + (name + port)).skip(4);
    assert(payload.subrange(1, 1 + name.len() as int) == name);
}

/// A request whose address type is none of IPv4, domain name and IPv6 ends
/// the session with a protocol error as soon as its header is read: no
/// reply is written.
pub proof fn unsupported_address_type_gets_no_reply(command: u8, reserved: u8, address_type: u8)
    requires
        address_type != ATYP_IPV4,
        address_type != ATYP_DOMAIN,
        address_type != ATYP_IPV6,
    ensures
        step(
            awaiting_request(),
            EventView::Bytes(request_header(command, reserved, address_type)),
        ) == failed(protocol_failure()),
{
}

/// A request for another command than CONNECT ends the session with a
/// protocol error once its address is read: no reply is written and nothing
/// is dialled.
pub proof fn other_commands_get_no_reply(command: u8, reserved: u8, payload: Seq<u8>)
    requires
        command != CONNECT,
        payload.len() == 6,
    ensures
        ({
            let (s1, a1) = step(
                awaiting_request(),
                EventView::Bytes(request_header(command, reserved, ATYP_IPV4)),
            );
            &&& a1 == ActionView::Read { len: 6 }
            &&& step(s1, EventView::Bytes(payload)) == failed(protocol_failure())
        }),
{
}

/// A name that resolves is dialled at the first address that the resolver
/// gave, and at no other.
pub proof fn resolved_name_is_dialled_at_its_first_address(candidates: Seq<TargetAddress>)
    requires
        candidates.len() > 0,
    ensures
        step(
            resting(State::ResolvingTarget { command: CONNECT }),
            EventView::Resolved(candidates),
        ) == (resting(State::Connecting), ActionView::Connect { target: candidates[0] }),
{
}

/// A failure of the outstanding action ends a running session with that
/// failure as the cause.
pub proof fn io_failure_ends_the_session(s: SessionView, source: std::io::Error)
    requires
        !s.state.is_terminal(),
    ensures
        step(s, EventView::IoFailed(source)) == failed(ErrorView::Io { source }),
{
}

/// A read that returns another number of bytes than was asked for ends the
/// session with a protocol error.
pub proof fn short_read_is_a_protocol_error(s: SessionView, bytes: Seq<u8>)
    requires
        !s.state.is_terminal(),
        bytes.len() != s.wanted,
    ensures
        step(s, EventView::Bytes(bytes)) == failed(protocol_failure()),
{
}

/// A session that has ended stays as it is, whatever is reported to it.
pub proof fn ended_sessions_stay_ended(s: SessionView, e: EventView)
    requires
        s.state.is_terminal(),
    ensures
        step(s, e).0 == s,
{
}

/// The session asks to drop the connection exactly when it has failed, and
/// for the relay exactly when the handshake has succeeded.
pub proof fn last_action_tells_the_outcome(s: SessionView, e: EventView)
    ensures
        step(s, e).1 is Close <==> step(s, e).0.state == State::Failed,
        step(s, e).1 is Relay <==> step(s, e).0.state == State::ReplySent,
{
}

/// The request is read only after the method reply has been written.
pub proof fn request_follows_the_method_reply(s: SessionView, e: EventView)
    requires
        step(s, e).0.state == State::AwaitingRequest,
    ensures
        s.state == State::AcceptingMethod,
        e == EventView::Written,
{
}

/// The relay starts only after the target was dialled, the connection
/// stood and the success reply was written: each of these states is entered
/// from the one before it and by the event that reports its success.
pub proof fn relay_follows_the_connection(s: SessionView, e: EventView)
    requires
        !s.state.is_terminal(),
    ensures
        step(s, e).0.state == State::ReplySent ==> s.state == State::ConfirmingConnect && e
            == EventView::Written,
        step(s, e).0.state == State::ConfirmingConnect ==> s.state == State::Connecting && e
            == EventView::Connected,
        step(s, e).0.state == State::Connecting ==> step(s, e).1 is Connect && (s.state
            == State::AwaitingRequest || s.state == State::AwaitingAddress || s.state
            == State::ResolvingTarget { command: CONNECT }),
{
}

/// The session that a fresh session becomes once `events` were reported to
/// it, one after the other.
pub open spec fn after(events: Seq<EventView>) -> SessionView
    decreases events.len(),
{
    if events.len() == 0 {
        opened().0
    } else {
        step(after(events.drop_last()), events.last()).0
    }
}

/// The action that is outstanding once `events` were reported to a fresh
/// session.
pub open spec fn asked(events: Seq<EventView>) -> ActionView {
    if events.len() == 0 {
        opened().1
    } else {
        step(after(events.drop_last()), events.last()).1
    }
}

/// The event at `k` reports that the connection stands which the session
/// had asked for just before.
pub open spec fn connected_at(events: Seq<EventView>, k: int) -> bool {
    &&& 0 <= k < events.len()
    &&& events[k] == EventView::Connected
    &&& asked(events.take(k)) is Connect
}

/// Induction over the events: a session that waits for the target has asked
/// for it, and one that is past that wait was told that the connection
/// stands.
proof fn connection_precedes_its_confirmation(events: Seq<EventView>)
    ensures
        after(events).state == State::Connecting ==> asked(events) is Connect,
        after(events).state == State::ConfirmingConnect || after(events).state
            == State::ReplySent ==> exists|k: int| connected_at(events, k),
    decreases events.len(),
{
    if events.len() > 0 {
        let before = events.drop_last();
        let s = after(before);
        connection_precedes_its_confirmation(before);
        if !s.state.is_terminal() {
            relay_follows_the_connection(s, events.last());
        }
        if after(events).state == State::ConfirmingConnect {
            assert(events.take(before.len() as int) == before);
            assert(connected_at(events, before.len() as int));
        } else if after(events).state == State::ReplySent {
            let k = choose|k: int| connected_at(before, k);
            assert(events.take(k) == before.take(k));
            assert(connected_at(events, k));
        }
    }
}

/// However a session came to hand its connection to the relay, it had
/// asked for the connection to the target before, and was told that the
/// connection stands.
pub proof fn relay_needs_a_connection(events: Seq<EventView>)
    requires
        after(events).state == State::ReplySent,
    ensures
        exists|k: int| connected_at(events, k),
{
    connection_precedes_its_confirmation(events);
}

impl State {
    /// The session is past the method negotiation and has not failed: it
    /// reads or serves the request, or has served it.
    pub open spec fn in_request(self) -> bool {
        !self.in_greeting() && self != State::Failed
    }
}

/// The action that writes the method reply `05 00`.
pub open spec fn acceptance() -> ActionView {
    ActionView::Write { bytes: method_reply(MethodChoice::NoAuthentication) }
}

/// The event at `k` reports that the method reply went out which the
/// session had asked to write just before.
pub open spec fn accepted_at(events: Seq<EventView>, k: int) -> bool {
    &&& 0 <= k < events.len()
    &&& events[k] == EventView::Written
    &&& asked(events.take(k)) == acceptance()
}

/// Induction over the events: a session that writes the method reply has
/// asked to, and one that is past the negotiation was told that the reply
/// went out.
proof fn method_reply_precedes_the_request(events: Seq<EventView>)
    ensures
        after(events).state == State::AcceptingMethod ==> asked(events) == acceptance(),
        after(events).state.in_request() ==> exists|k: int| accepted_at(events, k),
    decreases events.len(),
{
    if events.len() > 0 {
        let before = events.drop_last();
        method_reply_precedes_the_request(before);
        if after(events).state.in_request() {
            if after(before).state.in_request() {
                let k = choose|k: int| accepted_at(before, k);
                assert(events.take(k) == before.take(k));
                assert(accepted_at(events, k));
            } else {
                assert(events.take(before.len() as int) == before);
                assert(accepted_at(events, before.len() as int));
            }
        }
    }
}

/// However a session came to read or serve a request, it had asked to
/// write the method reply `05 00` before, and was told that the reply went
/// out: no request is read before the greeting is answered.
pub proof fn request_needs_a_greeting(events: Seq<EventView>)
    requires
        after(events).state.in_request(),
    ensures
        exists|k: int| accepted_at(events, k),
{
    method_reply_precedes_the_request(events);
}

impl SessionView {
    /// The outstanding read is what the message in the inbox still lacks,
    /// and a session that reads no message holds no bytes.
    pub open spec fn well_formed(self) -> bool {
        match self.state {
            State::AwaitingGreeting => self == opened().0,
            State::NegotiatingMethod => parse_greeting(self.inbox) == Err::<
                GreetingView,
                DecodeFailure,
            >(DecodeFailure::Incomplete { missing: self.wanted }),
            State::AwaitingRequest => self == awaiting_request(),
            State::AwaitingAddress => parse_request(self.inbox) == Err::<
                ConnectRequestView,
                DecodeFailure,
            >(DecodeFailure::Incomplete { missing: self.wanted }),
            _ => self == resting(self.state),
        }
    }
}

/// A fresh session is well formed, steps keep sessions so, and every read
/// that a well-formed session asks for is of at least one byte and at most
/// 257: a session never asks for bytes beyond the message it is reading.
pub proof fn sessions_stay_well_formed(s: SessionView, e: EventView)
    requires
        s.well_formed(),
    ensures
        opened().0.well_formed(),
        step(s, e).0.well_formed(),
        step(s, e).1 matches ActionView::Read { len } ==> 1 <= len <= 257,
{
}

} // verus!
