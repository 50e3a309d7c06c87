use socks5_proxy::codec::TargetAddress;
use socks5_proxy::error::{S5ErrorType, UnExpectedError};
use socks5_proxy::handshake::{Action, Event, State};
use socks5_proxy::server::{Server, Session};

const SUCCESS_REPLY: [u8; 10] = [0x05, 0x00, 0x00, 0x01, 0, 0, 0, 0, 0, 0];
const FAILURE_REPLY: [u8; 10] = [0x05, 0x08, 0x00, 0x01, 0, 0, 0, 0, 0, 0];

fn read_len(action: Action) -> usize {
    match action {
        Action::Read { len } => len,
        other => panic!("not a read: {:?}", other),
    }
}

fn written(action: Action) -> Vec<u8> {
    match action {
        Action::Write { bytes } => bytes,
        other => panic!("not a write: {:?}", other),
    }
}

fn is_protocol_error(action: Action) -> bool {
    match action {
        Action::Close { error: UnExpectedError::S5Error(x) } => {
            x.error_type == S5ErrorType::ProtocolError
                && x.error_message == "Only Support Noauthorization"
        },
        _ => false,
    }
}

fn broken_pipe() -> std::io::Error {
    std::io::Error::new(std::io::ErrorKind::BrokenPipe, "peer went away")
}

/// A session that has accepted a greeting and waits for the request header.
fn negotiated() -> Session {
    let (mut session, first) = Session::open();
    assert_eq!(read_len(first), 2);
    assert_eq!(read_len(Server::process(&mut session, Event::Bytes(vec![0x05, 0x01]))), 1);
    assert_eq!(written(Server::process(&mut session, Event::Bytes(vec![0x00]))), vec![0x05, 0x00]);
    assert_eq!(read_len(Server::process(&mut session, Event::Written)), 4);
    assert_eq!(session.state(), State::AwaitingRequest);
    session
}

#[test]
fn fresh_session_reads_two_bytes() {
    let (session, first) = Session::open();
    assert_eq!(session.state(), State::AwaitingGreeting);
    assert_eq!(read_len(first), 2);
}

#[test]
fn greeting_with_no_authentication_is_accepted() {
    let (mut session, _) = Session::open();
    let next = Server::process(&mut session, Event::Bytes(vec![0x05, 0x03]));
    assert_eq!(read_len(next), 3);
    assert_eq!(session.state(), State::NegotiatingMethod);
    let reply = Server::process(&mut session, Event::Bytes(vec![0x02, 0x00, 0x01]));
    assert_eq!(written(reply), vec![0x05, 0x00]);
    assert_eq!(session.state(), State::AcceptingMethod);
    let next = Server::process(&mut session, Event::Written);
    assert_eq!(read_len(next), 4);
    assert_eq!(session.state(), State::AwaitingRequest);
}

#[test]
fn greeting_without_no_authentication_is_refused_and_then_accepted() {
    let (mut session, _) = Session::open();
    assert_eq!(read_len(Server::process(&mut session, Event::Bytes(vec![0x05, 0x02]))), 2);
    let refusal = Server::process(&mut session, Event::Bytes(vec![0x01, 0x02]));
    assert_eq!(written(refusal), vec![0x05, 0xFF]);
    assert_eq!(session.state(), State::RefusingMethods);
    let reply = Server::process(&mut session, Event::Written);
    assert_eq!(written(reply), vec![0x05, 0x00]);
    assert_eq!(session.state(), State::AcceptingMethod);
    assert_eq!(read_len(Server::process(&mut session, Event::Written)), 4);
    assert_eq!(session.state(), State::AwaitingRequest);
}

#[test]
fn greeting_without_methods_is_refused_without_a_second_read() {
    let (mut session, _) = Session::open();
    let refusal = Server::process(&mut session, Event::Bytes(vec![0x05, 0x00]));
    assert_eq!(written(refusal), vec![0x05, 0xFF]);
    assert_eq!(written(Server::process(&mut session, Event::Written)), vec![0x05, 0x00]);
    assert_eq!(read_len(Server::process(&mut session, Event::Written)), 4);
}

#[test]
fn greeting_with_255_methods_is_read_in_full() {
    let (mut session, _) = Session::open();
    assert_eq!(read_len(Server::process(&mut session, Event::Bytes(vec![0x05, 0xFF]))), 255);
    let mut methods = vec![0x02u8; 255];
    methods[254] = 0x00;
    assert_eq!(written(Server::process(&mut session, Event::Bytes(methods))), vec![0x05, 0x00]);
}

#[test]
fn greeting_with_wrong_version_ends_the_session() {
    let (mut session, _) = Session::open();
    let end = Server::process(&mut session, Event::Bytes(vec![0x04, 0x01]));
    assert!(is_protocol_error(end));
    assert_eq!(session.state(), State::Failed);
}

#[test]
fn short_greeting_ends_the_session() {
    let (mut session, _) = Session::open();
    assert!(is_protocol_error(Server::process(&mut session, Event::Bytes(vec![0x05]))));
    assert_eq!(session.state(), State::Failed);

    let (mut session, _) = Session::open();
    assert_eq!(read_len(Server::process(&mut session, Event::Bytes(vec![0x05, 0x02]))), 2);
    assert!(is_protocol_error(Server::process(&mut session, Event::Bytes(vec![0x00]))));
    assert_eq!(session.state(), State::Failed);
}

#[test]
fn ipv4_connect_is_dialled_confirmed_and_relayed() {
    let mut session = negotiated();
    let next = Server::process(&mut session, Event::Bytes(vec![0x05, 0x01, 0x00, 0x01]));
    assert_eq!(read_len(next), 6);
    assert_eq!(session.state(), State::AwaitingAddress);
    let dial = Server::process(&mut session, Event::Bytes(vec![127, 0, 0, 1, 0x1F, 0x90]));
    assert!(matches!(
        dial,
        Action::Connect { target: TargetAddress::V4 { addr: 0x7F00_0001, port: 8080 } }
    ));
    assert_eq!(session.state(), State::Connecting);
    let reply = Server::process(&mut session, Event::Connected);
    assert_eq!(written(reply), SUCCESS_REPLY.to_vec());
    assert_eq!(session.state(), State::ConfirmingConnect);
    assert!(matches!(Server::process(&mut session, Event::Written), Action::Relay));
    assert_eq!(session.state(), State::ReplySent);
}

#[test]
fn ipv6_connect_is_dialled() {
    let mut session = negotiated();
    let next = Server::process(&mut session, Event::Bytes(vec![0x05, 0x01, 0x00, 0x04]));
    assert_eq!(read_len(next), 18);
    let mut payload = vec![0u8; 18];
    payload[15] = 1;
    payload[16] = 0x00;
    payload[17] = 0x50;
    let dial = Server::process(&mut session, Event::Bytes(payload));
    assert!(matches!(
        dial,
        Action::Connect {
            target: TargetAddress::V6 { addr: 1, port: 80, flowinfo: 0, scope_id: 0 }
        }
    ));
    assert_eq!(written(Server::process(&mut session, Event::Connected)), SUCCESS_REPLY.to_vec());
    assert!(matches!(Server::process(&mut session, Event::Written), Action::Relay));
}

#[test]
fn domain_connect_is_resolved_and_dialled_at_the_first_address() {
    let mut session = negotiated();
    let next = Server::process(&mut session, Event::Bytes(vec![0x05, 0x01, 0x00, 0x03]));
    assert_eq!(read_len(next), 1);
    assert_eq!(read_len(Server::process(&mut session, Event::Bytes(vec![11]))), 13);
    let mut rest = b"example.com".to_vec();
    rest.extend_from_slice(&[0x01, 0xBB]);
    match Server::process(&mut session, Event::Bytes(rest)) {
        Action::Resolve { name, port } => {
            assert_eq!(name, "example.com");
            assert_eq!(port, 443);
        },
        other => panic!("not a lookup: {:?}", other),
    }
    assert_eq!(session.state(), State::ResolvingTarget { command: 0x01 });
    let first = TargetAddress::V4 { addr: 0x5DB8_D822, port: 443 };
    let second = TargetAddress::V6 { addr: 7, port: 443, flowinfo: 0, scope_id: 3 };
    let dial = Server::process(&mut session, Event::Resolved(vec![first, second]));
    match dial {
        Action::Connect { target } => assert_eq!(target, first),
        other => panic!("not a connect: {:?}", other),
    }
    assert_eq!(written(Server::process(&mut session, Event::Connected)), SUCCESS_REPLY.to_vec());
    assert!(matches!(Server::process(&mut session, Event::Written), Action::Relay));
    assert_eq!(session.state(), State::ReplySent);
}

#[test]
fn domain_without_an_address_gets_the_failure_reply() {
    let mut session = negotiated();
    assert_eq!(read_len(Server::process(&mut session, Event::Bytes(vec![0x05, 0x01, 0x00, 0x03]))), 1);
    assert_eq!(read_len(Server::process(&mut session, Event::Bytes(vec![7]))), 9);
    let mut rest = b"nowhere".to_vec();
    rest.extend_from_slice(&[0x00, 0x50]);
    assert!(matches!(
        Server::process(&mut session, Event::Bytes(rest)),
        Action::Resolve { port: 80, .. }
    ));
    let reply = Server::process(&mut session, Event::Resolved(vec![]));
    assert_eq!(written(reply), FAILURE_REPLY.to_vec());
    assert_eq!(session.state(), State::RejectingTarget);
    assert!(is_protocol_error(Server::process(&mut session, Event::Written)));
    assert_eq!(session.state(), State::Failed);
}

#[test]
fn domain_without_an_address_is_rejected_before_the_command_is_judged() {
    let mut session = negotiated();
    assert_eq!(read_len(Server::process(&mut session, Event::Bytes(vec![0x05, 0x02, 0x00, 0x03]))), 1);
    assert_eq!(read_len(Server::process(&mut session, Event::Bytes(vec![1]))), 3);
    assert!(matches!(
        Server::process(&mut session, Event::Bytes(vec![b'x', 0x00, 0x50])),
        Action::Resolve { .. }
    ));
    let reply = Server::process(&mut session, Event::Resolved(vec![]));
    assert_eq!(written(reply), FAILURE_REPLY.to_vec());
}

#[test]
fn domain_that_is_not_utf8_ends_the_session_with_an_encoding_failure() {
    let mut session = negotiated();
    assert_eq!(read_len(Server::process(&mut session, Event::Bytes(vec![0x05, 0x01, 0x00, 0x03]))), 1);
    assert_eq!(read_len(Server::process(&mut session, Event::Bytes(vec![2]))), 4);
    let end = Server::process(&mut session, Event::Bytes(vec![0xC3, 0x28, 0x00, 0x50]));
    assert!(matches!(end, Action::Close { error: UnExpectedError::Utf8Error(_) }));
    assert_eq!(session.state(), State::Failed);
}

#[test]
fn unsupported_address_type_ends_the_session_without_a_reply() {
    let mut session = negotiated();
    let end = Server::process(&mut session, Event::Bytes(vec![0x05, 0x01, 0x00, 0x02]));
    assert!(is_protocol_error(end));
    assert_eq!(session.state(), State::Failed);
}

#[test]
fn request_with_wrong_version_ends_the_session_without_a_reply() {
    let mut session = negotiated();
    let end = Server::process(&mut session, Event::Bytes(vec![0x04, 0x01, 0x00, 0x01]));
    assert!(is_protocol_error(end));
    assert_eq!(session.state(), State::Failed);
}

#[test]
fn other_commands_end_the_session_without_a_reply() {
    let mut session = negotiated();
    assert_eq!(read_len(Server::process(&mut session, Event::Bytes(vec![0x05, 0x02, 0x00, 0x01]))), 6);
    let end = Server::process(&mut session, Event::Bytes(vec![10, 0, 0, 1, 0, 80]));
    assert!(is_protocol_error(end));
    assert_eq!(session.state(), State::Failed);

    let mut session = negotiated();
    assert_eq!(read_len(Server::process(&mut session, Event::Bytes(vec![0x05, 0x03, 0x00, 0x03]))), 1);
    assert_eq!(read_len(Server::process(&mut session, Event::Bytes(vec![1]))), 3);
    assert!(matches!(
        Server::process(&mut session, Event::Bytes(vec![b'x', 0x00, 0x50])),
        Action::Resolve { .. }
    ));
    assert_eq!(session.state(), State::ResolvingTarget { command: 0x03 });
    let found = vec![TargetAddress::V4 { addr: 0x0A00_0001, port: 80 }];
    assert!(is_protocol_error(Server::process(&mut session, Event::Resolved(found))));
    assert_eq!(session.state(), State::Failed);
}

#[test]
fn short_request_ends_the_session() {
    let mut session = negotiated();
    assert!(is_protocol_error(Server::process(&mut session, Event::Bytes(vec![0x05, 0x01]))));

    let mut session = negotiated();
    assert_eq!(read_len(Server::process(&mut session, Event::Bytes(vec![0x05, 0x01, 0x00, 0x01]))), 6);
    assert!(is_protocol_error(Server::process(&mut session, Event::Bytes(vec![127, 0, 0]))));
    assert_eq!(session.state(), State::Failed);
}

#[test]
fn failed_connect_ends_the_session_with_the_io_failure() {
    let mut session = negotiated();
    assert_eq!(read_len(Server::process(&mut session, Event::Bytes(vec![0x05, 0x01, 0x00, 0x01]))), 6);
    assert!(matches!(
        Server::process(&mut session, Event::Bytes(vec![10, 0, 0, 1, 0, 80])),
        Action::Connect { .. }
    ));
    let refused = std::io::Error::new(std::io::ErrorKind::ConnectionRefused, "refused");
    match Server::process(&mut session, Event::IoFailed(refused)) {
        Action::Close { error: UnExpectedError::IoError(e) } => {
            assert_eq!(e.kind(), std::io::ErrorKind::ConnectionRefused);
        },
        other => panic!("not an I/O failure: {:?}", other),
    }
    assert_eq!(session.state(), State::Failed);
}

#[test]
fn io_failure_ends_the_session_in_every_running_state() {
    let (mut session, _) = Session::open();
    assert!(matches!(
        Server::process(&mut session, Event::IoFailed(broken_pipe())),
        Action::Close { error: UnExpectedError::IoError(_) }
    ));
    assert_eq!(session.state(), State::Failed);

    let mut session = negotiated();
    match Server::process(&mut session, Event::IoFailed(broken_pipe())) {
        Action::Close { error: UnExpectedError::IoError(e) } => {
            assert_eq!(e.kind(), std::io::ErrorKind::BrokenPipe);
        },
        other => panic!("not an I/O failure: {:?}", other),
    }
    assert_eq!(session.state(), State::Failed);
}

#[test]
fn event_that_was_not_asked_for_ends_the_session() {
    let (mut session, _) = Session::open();
    assert!(is_protocol_error(Server::process(&mut session, Event::Written)));
    assert_eq!(session.state(), State::Failed);

    let mut session = negotiated();
    assert!(is_protocol_error(Server::process(&mut session, Event::Connected)));
    assert_eq!(session.state(), State::Failed);

    let mut session = negotiated();
    assert!(is_protocol_error(Server::process(&mut session, Event::Resolved(vec![]))));
    assert_eq!(session.state(), State::Failed);
}

#[test]
fn ended_session_stays_ended() {
    let (mut session, _) = Session::open();
    assert!(is_protocol_error(Server::process(&mut session, Event::Bytes(vec![0x00, 0x00]))));
    assert!(is_protocol_error(Server::process(&mut session, Event::Bytes(vec![0x05, 0x01]))));
    assert!(is_protocol_error(Server::process(&mut session, Event::IoFailed(broken_pipe()))));
    assert_eq!(session.state(), State::Failed);

    let mut session = negotiated();
    Server::process(&mut session, Event::Bytes(vec![0x05, 0x01, 0x00, 0x01]));
    Server::process(&mut session, Event::Bytes(vec![127, 0, 0, 1, 0, 80]));
    Server::process(&mut session, Event::Connected);
    assert!(matches!(Server::process(&mut session, Event::Written), Action::Relay));
    assert!(matches!(Server::process(&mut session, Event::Written), Action::Relay));
    assert!(matches!(Server::process(&mut session, Event::IoFailed(broken_pipe())), Action::Relay));
    assert_eq!(session.state(), State::ReplySent);
}

#[test]
fn sessions_do_not_share_anything() {
    let mut first = negotiated();
    let mut second = negotiated();
    assert_eq!(read_len(Server::process(&mut first, Event::Bytes(vec![0x05, 0x01, 0x00, 0x01]))), 6);
    assert_eq!(read_len(Server::process(&mut second, Event::Bytes(vec![0x05, 0x01, 0x00, 0x01]))), 6);
    let one = Server::process(&mut first, Event::Bytes(vec![10, 0, 0, 1, 0x00, 0x50]));
    let two = Server::process(&mut second, Event::Bytes(vec![10, 0, 0, 2, 0x01, 0xBB]));
    assert!(matches!(
        one,
        Action::Connect { target: TargetAddress::V4 { addr: 0x0A00_0001, port: 80 } }
    ));
    assert!(matches!(
        two,
        Action::Connect { target: TargetAddress::V4 { addr: 0x0A00_0002, port: 443 } }
    ));
    assert!(is_protocol_error(Server::process(&mut first, Event::Written)));
    assert_eq!(first.state(), State::Failed);
    assert_eq!(second.state(), State::Connecting);
    assert_eq!(written(Server::process(&mut second, Event::Connected)), SUCCESS_REPLY.to_vec());
}

#[test]
fn terminal_states_are_the_last_two() {
    assert!(State::ReplySent.is_terminal());
    assert!(State::Failed.is_terminal());
    assert!(!State::AwaitingGreeting.is_terminal());
    assert!(!State::Connecting.is_terminal());
    assert!(!State::ResolvingTarget { command: 1 }.is_terminal());
}
