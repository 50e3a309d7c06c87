//! The proxy server: where it listens, and the executable session that a
//! driver feeds with events.

use crate::codec::{
    decode_greeting, decode_request, encode_connect_reply, encode_method_reply, select_method,
    Address, ConnectOutcome, DecodeError, MethodChoice, TargetAddress, CONNECT,
};
use crate::config::Config;
use crate::error::{protocol_error, UnExpectedError};
use crate::handshake::{
    answered, dialled, failed, greeted, negotiate, opened, requested, resolved, resting,
    serve, sessions_stay_well_formed, step, Action, Event, SessionView, State,
    GREETING_HEADER_LEN, REQUEST_HEADER_LEN,
};
use vstd::prelude::*;

verus! {

/// The address that is used where the configuration names none.
pub open spec fn default_ip() -> Seq<char> {
    "127.0.0.1"@
}

/// The port that is used where the configuration names none.
pub const DEFAULT_PORT: u16 = 3001;

/// A proxy server and the address it binds.
#[derive(Debug)]
pub struct Server {
    pub ip: String,
    pub port: u16,
}

/// One client session: its state, the bytes of the message that is being
/// read, and the length of the outstanding read.
#[derive(Debug)]
pub struct Session {
    state: State,
    inbox: Vec<u8>,
    wanted: usize,
}

impl View for Session {
    type V = SessionView;

    closed spec fn view(&self) -> SessionView {
        SessionView { state: self.state, inbox: self.inbox@, wanted: self.wanted as nat }
    }
}

impl Session {
    /// Opens a session for a connection that was just accepted.
    pub fn open() -> (r: (Session, Action))
        ensures
            (r.0@, r.1@) == opened(),
            r.0@.well_formed(),
    {
        (
            Session {
                state: State::AwaitingGreeting,
                inbox: Vec::new(),
                wanted: GREETING_HEADER_LEN,
            },
            Action::Read { len: GREETING_HEADER_LEN },
        )
    }

    /// Where the session stands.
    pub fn state(&self) -> (state: State)
        ensures
            state == self@.state,
    {
        self.state
    }

    /// Moves to `state` with no read outstanding.
    fn rest(&mut self, state: State)
        ensures
            final(self)@ == resting(state),
    {
        self.state = state;
        self.inbox = Vec::new();
        self.wanted = 0;
    }

    /// Ends the session in failure.
    fn fail(&mut self, error: UnExpectedError) -> (action: Action)
        ensures
            (final(self)@, action@) == failed(error@),
    {
        self.rest(State::Failed);
        Action::Close { error }
    }

    /// Answers a greeting with the method that was chosen.
    fn answer(&mut self, choice: MethodChoice) -> (action: Action)
        ensures
            (final(self)@, action@) == answered(choice),
    {
        match choice {
            MethodChoice::NoAuthentication => self.rest(State::AcceptingMethod),
            MethodChoice::NoAcceptableMethods => self.rest(State::RefusingMethods),
        }
        Action::Write { bytes: encode_method_reply(choice) }
    }

    /// Dials the target if the command is CONNECT.
    fn dial(&mut self, command: u8, target: TargetAddress) -> (action: Action)
        ensures
            (final(self)@, action@) == dialled(command, target),
    {
        if command == CONNECT {
            self.rest(State::Connecting);
            Action::Connect { target }
        } else {
            self.fail(protocol_error())
        }
    }

    /// Takes the bytes of a greeting.
    fn greet(&mut self, bytes: Vec<u8>) -> (action: Action)
        ensures
            (final(self)@, action@) == greeted(old(self)@, bytes@),
    {
        let mut bytes = bytes;
        if bytes.len() != self.wanted {
            return self.fail(protocol_error());
        }
        self.inbox.append(&mut bytes);
        match decode_greeting(self.inbox.as_slice()) {
            Ok(greeting) => {
                let choice = select_method(&greeting);
                self.answer(choice)
            },
            Err(DecodeError::Incomplete { missing }) => {
                self.state = State::NegotiatingMethod;
                self.wanted = missing;
                Action::Read { len: missing }
            },
            Err(_) => self.fail(protocol_error()),
        }
    }

    /// Takes the bytes of a request.
    fn ask(&mut self, bytes: Vec<u8>) -> (action: Action)
        ensures
            (final(self)@, action@) == requested(old(self)@, bytes@),
    {
        let mut bytes = bytes;
        if bytes.len() != self.wanted {
            return self.fail(protocol_error());
        }
        self.inbox.append(&mut bytes);
        match decode_request(self.inbox.as_slice()) {
            Ok(request) => {
                let command = request.header.command;
                match request.address {
                    Address::V4 { addr, port } => self.dial(
                        command,
                        TargetAddress::V4 { addr, port },
                    ),
                    Address::V6 { addr, port } => self.dial(
                        command,
                        TargetAddress::V6 { addr, port, flowinfo: 0, scope_id: 0 },
                    ),
                    Address::Domain { name, port } => {
                        self.rest(State::ResolvingTarget { command });
                        Action::Resolve { name, port }
                    },
                }
            },
            Err(DecodeError::Incomplete { missing }) => {
                self.state = State::AwaitingAddress;
                self.wanted = missing;
                Action::Read { len: missing }
            },
            Err(DecodeError::InvalidEncoding(e)) => self.fail(UnExpectedError::from(e)),
            Err(_) => self.fail(protocol_error()),
        }
    }

    /// Takes what the resolver found.
    fn target(&mut self, command: u8, candidates: Vec<TargetAddress>) -> (action: Action)
        ensures
            (final(self)@, action@) == resolved(command, candidates@),
    {
        if candidates.len() == 0 {
            self.rest(State::RejectingTarget);
            Action::Write { bytes: encode_connect_reply(ConnectOutcome::Failed) }
        } else {
            self.dial(command, candidates[0])
        }
    }
}

impl Server {
    /// The address that a configuration binds: what it leaves out is filled
    /// in with `127.0.0.1` and port 3001.
    pub open spec fn binding(config: Config) -> (Seq<char>, u16) {
        (
            match config.ip {
                Some(ip) => ip@,
                None => default_ip(),
            },
            match config.port {
                Some(port) => port,
                None => DEFAULT_PORT,
            },
        )
    }

    /// The server for the outcome of loading a configuration file: the
    /// server for the configuration, or the failure to load it.
    pub fn from_file(loaded: Result<Config, std::io::Error>) -> (r: Result<Server, UnExpectedError>)
        ensures
            match loaded {
                Ok(config) => r matches Ok(server) && (server.ip@, server.port) == Server::binding(
                    config,
                ),
                Err(e) => r matches Err(error) && error == UnExpectedError::IoError(e),
            },
    {
        match loaded {
            Ok(config) => Server::from_config(&config),
            Err(e) => Err(UnExpectedError::from(e)),
        }
    }

    /// The server for a configuration.
    pub fn from_config(config: &Config) -> (r: Result<Server, UnExpectedError>)
        ensures
            r matches Ok(server) && (server.ip@, server.port) == Server::binding(*config),
    {
        let ip = match &config.ip {
            Some(ip) => ip.clone(),
            None => "127.0.0.1".to_string(),
        };
        let port = match config.port {
            Some(port) => port,
            None => DEFAULT_PORT,
        };
        Ok(Server { ip, port })
    }

    /// The step of a session that negotiates the method.
    fn validate_protocol(session: &mut Session, event: Event) -> (action: Action)
        requires
            old(session)@.state.in_greeting(),
        ensures
            (final(session)@, action@) == negotiate(old(session)@, event@),
    {
        match event {
            Event::IoFailed(e) => session.fail(UnExpectedError::from(e)),
            Event::Bytes(bytes) => match session.state {
                State::AwaitingGreeting => session.greet(bytes),
                State::NegotiatingMethod => session.greet(bytes),
                _ => session.fail(protocol_error()),
            },
            Event::Written => match session.state {
                State::RefusingMethods => session.answer(MethodChoice::NoAuthentication),
                State::AcceptingMethod => {
                    session.rest(State::AwaitingRequest);
                    session.wanted = REQUEST_HEADER_LEN;
                    Action::Read { len: REQUEST_HEADER_LEN }
                },
                _ => session.fail(protocol_error()),
            },
            _ => session.fail(protocol_error()),
        }
    }

    /// The step of a session that serves the request.
    fn request(session: &mut Session, event: Event) -> (action: Action)
        requires
            !old(session)@.state.in_greeting(),
            !old(session)@.state.is_terminal(),
        ensures
            (final(session)@, action@) == serve(old(session)@, event@),
    {
        match event {
            Event::IoFailed(e) => session.fail(UnExpectedError::from(e)),
            Event::Bytes(bytes) => match session.state {
                State::AwaitingRequest => session.ask(bytes),
                State::AwaitingAddress => session.ask(bytes),
                _ => session.fail(protocol_error()),
            },
            Event::Resolved(candidates) => match session.state {
                State::ResolvingTarget { command } => session.target(command, candidates),
                _ => session.fail(protocol_error()),
            },
            Event::Connected => match session.state {
                State::Connecting => {
                    session.rest(State::ConfirmingConnect);
                    Action::Write { bytes: encode_connect_reply(ConnectOutcome::Succeeded) }
                },
                _ => session.fail(protocol_error()),
            },
            Event::Written => match session.state {
                State::RejectingTarget => session.fail(protocol_error()),
                State::ConfirmingConnect => {
                    session.rest(State::ReplySent);
                    Action::Relay
                },
                _ => session.fail(protocol_error()),
            },
        }
    }

    /// Takes one event of a session and answers with the next action: first
    /// the method negotiation, then the request, and the relay only once the
    /// success reply is out.
    pub fn process(session: &mut Session, event: Event) -> (action: Action)
        ensures
            (final(session)@, action@) == step(old(session)@, event@),
            old(session)@.well_formed() ==> final(session)@.well_formed(),
    {
        proof {
            if session@.well_formed() {
                sessions_stay_well_formed(session@, event@);
            }
        }
        match session.state {
            State::ReplySent => Action::Relay,
            State::Failed => Action::Close { error: protocol_error() },
            State::AwaitingGreeting => Server::validate_protocol(session, event),
            State::NegotiatingMethod => Server::validate_protocol(session, event),
            State::RefusingMethods => Server::validate_protocol(session, event),
            State::AcceptingMethod => Server::validate_protocol(session, event),
            _ => Server::request(session, event),
        }
    }
}

} // verus!
