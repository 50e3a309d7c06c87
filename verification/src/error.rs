//! The failures that end a session.

use vstd::prelude::*;
use vstd::std_specs::convert::FromSpecImpl;
use vstd::string::{to_string_from_display_ensures, StringExecFns};

verus! {

/// `std::io::Error`, carried through unopened.
#[verifier::external_type_specification]
#[verifier::external_body]
pub struct ExIoError(std::io::Error);

/// `std::str::Utf8Error`, carried through unopened.
#[verifier::external_type_specification]
#[verifier::external_body]
pub struct ExUtf8Error(std::str::Utf8Error);

/// The classes of SOCKS5 failure.
#[derive(Debug, Clone, Copy, PartialEq, Eq, Structural)]
pub enum S5ErrorType {
    ProtocolError,
}

/// A SOCKS5 failure: its class and a message for the operator.
#[derive(Debug)]
pub struct S5Exception {
    pub error_type: S5ErrorType,
    pub error_message: String,
}

/// Everything that can end a session before or during the relay.
#[derive(Debug)]
pub enum UnExpectedError {
    IoError(std::io::Error),
    Utf8Error(std::str::Utf8Error),
    S5Error(S5Exception),
}

/// An error as a mathematical value.
pub enum ErrorView {
    Io { source: std::io::Error },
    Utf8 { source: std::str::Utf8Error },
    S5 { error_type: S5ErrorType, message: Seq<char> },
}

impl View for UnExpectedError {
    type V = ErrorView;

    open spec fn view(&self) -> ErrorView {
        match *self {
            UnExpectedError::IoError(source) => ErrorView::Io { source },
            UnExpectedError::Utf8Error(source) => ErrorView::Utf8 { source },
            UnExpectedError::S5Error(x) => ErrorView::S5 {
                error_type: x.error_type,
                message: x.error_message@,
            },
        }
    }
}

impl From<std::io::Error> for UnExpectedError {
    fn from(s: std::io::Error) -> (e: Self) {
        UnExpectedError::IoError(s)
    }
}

impl FromSpecImpl<std::io::Error> for UnExpectedError {
    open spec fn obeys_from_spec() -> bool {
        true
    }

    open spec fn from_spec(s: std::io::Error) -> Self {
        UnExpectedError::IoError(s)
    }
}

impl From<std::str::Utf8Error> for UnExpectedError {
    fn from(s: std::str::Utf8Error) -> (e: Self) {
        UnExpectedError::Utf8Error(s)
    }
}

impl FromSpecImpl<std::str::Utf8Error> for UnExpectedError {
    open spec fn obeys_from_spec() -> bool {
        true
    }

    open spec fn from_spec(s: std::str::Utf8Error) -> Self {
        UnExpectedError::Utf8Error(s)
    }
}

impl From<S5Exception> for UnExpectedError {
    fn from(s: S5Exception) -> (e: Self) {
        UnExpectedError::S5Error(s)
    }
}

impl FromSpecImpl<S5Exception> for UnExpectedError {
    open spec fn obeys_from_spec() -> bool {
        true
    }

    open spec fn from_spec(s: S5Exception) -> Self {
        UnExpectedError::S5Error(s)
    }
}

/// The message of every protocol error.
pub open spec fn protocol_error_message() -> Seq<char> {
    "Only Support Noauthorization"@
}

/// The protocol error as a mathematical value.
pub open spec fn protocol_failure() -> ErrorView {
    ErrorView::S5 { error_type: S5ErrorType::ProtocolError, message: protocol_error_message() }
}

/// The protocol error: the peer broke the SOCKS5 rules.
pub fn protocol_error() -> (e: UnExpectedError)
    ensures
        e@ == protocol_failure(),
{
    UnExpectedError::S5Error(
        S5Exception {
            error_type: S5ErrorType::ProtocolError,
            error_message: "Only Support Noauthorization".to_string(),
        },
    )
}

impl S5ErrorType {
    /// The name of this class.
    pub open spec fn name(self) -> Seq<char> {
        match self {
            S5ErrorType::ProtocolError => "ProtocolError"@,
        }
    }

    /// The name of this class, as text.
    pub fn to_string(&self) -> (text: String)
        ensures
            text@ == self.name(),
    {
        match self {
            S5ErrorType::ProtocolError => "ProtocolError".to_string(),
        }
    }
}

impl S5Exception {
    /// The line that describes this failure: the class, then the message.
    pub open spec fn text(self) -> Seq<char> {
        self.error_type.name() + " : "@ + self.error_message@
    }

    /// The line that describes this failure.
    pub fn to_string(&self) -> (text: String)
        ensures
            text@ == self.text(),
    {
        let mut text = self.error_type.to_string();
        text.append(" : ");
        text.append(self.error_message.as_str());
        text
    }
}

/// A cause under its label: the label, a colon, a space, the cause.
pub open spec fn labelled_text(label: Seq<char>, cause: Seq<char>) -> Seq<char> {
    label + ": "@ + cause
}

/// Puts a cause under its label.
pub fn labelled(label: &str, cause: &str) -> (text: String)
    ensures
        text@ == labelled_text(label@, cause@),
{
    let mut text = label.to_string();
    text.append(": ");
    text.append(cause);
    text
}

impl UnExpectedError {
    /// The label that opens the description of this error.
    pub open spec fn label(self) -> Seq<char> {
        match self {
            UnExpectedError::IoError(_) => "IoError"@,
            UnExpectedError::Utf8Error(_) => "Utf8Error"@,
            UnExpectedError::S5Error(_) => "S5Error"@,
        }
    }

    /// The line that describes this error: its label, then its cause. The
    /// cause of a SOCKS5 failure is its own description; that of the other
    /// two is the text that the standard library displays for them.
    pub fn to_string(&self) -> (text: String)
        ensures
            match *self {
                UnExpectedError::IoError(e) => exists|cause: String|
                    to_string_from_display_ensures::<std::io::Error>(&e, cause) && text@
                        == labelled_text(self.label(), cause@),
                UnExpectedError::Utf8Error(e) => exists|cause: String|
                    to_string_from_display_ensures::<std::str::Utf8Error>(&e, cause) && text@
                        == labelled_text(self.label(), cause@),
                UnExpectedError::S5Error(x) => text@ == labelled_text(self.label(), x.text()),
            },
    {
        match self {
            UnExpectedError::IoError(e) => {
                let cause = e.to_string();
                labelled("IoError", cause.as_str())
            },
            UnExpectedError::Utf8Error(e) => {
                let cause = e.to_string();
                labelled("Utf8Error", cause.as_str())
            },
            UnExpectedError::S5Error(x) => {
                let cause = x.to_string();
                labelled("S5Error", cause.as_str())
            },
        }
    }
}

} // verus!
