//! The SOCKS5 wire format: decoders for what a client sends and encoders for
//! what the proxy answers. Everything here works on bytes already in memory.
//!
//! A decoder reads a message from the front of its input. When the input ends
//! before the message does, it says how many bytes to fetch before asking
//! again, so a driver never reads past the message it is decoding.

use byteorder::{BigEndian, ByteOrder};
use vstd::arithmetic::power::pow;
use vstd::prelude::*;
use vstd::slice::{slice_subrange, slice_to_vec};
use vstd::utf8::{decode_utf8, encode_utf8, encode_utf8_decode_utf8, valid_utf8};

verus! {

/// The protocol version that opens every client message and every reply.
pub const SOCKS_VERSION: u8 = 0x05;

/// Method code: no authentication required.
pub const NO_AUTHENTICATION: u8 = 0x00;

/// Method code: none of the offered methods is acceptable.
pub const NO_ACCEPTABLE_METHODS: u8 = 0xFF;

/// Command code: open a TCP connection to the target.
pub const CONNECT: u8 = 0x01;

/// Address type: four address bytes.
pub const ATYP_IPV4: u8 = 0x01;

/// Address type: a length byte and a host name.
pub const ATYP_DOMAIN: u8 = 0x03;

/// Address type: sixteen address bytes.
pub const ATYP_IPV6: u8 = 0x04;

/// Reply status: the connection to the target stands.
pub const REPLY_SUCCEEDED: u8 = 0x00;

/// Reply status: the request failed.
pub const REPLY_FAILED: u8 = 0x08;

/// The number that `bytes` spell, most significant byte first.
pub open spec fn be_value(bytes: Seq<u8>) -> nat
    decreases bytes.len(),
{
    if bytes.len() == 0 {
        0
    } else {
        be_value(bytes.drop_last()) * 256 + bytes.last() as nat
    }
}

/// Calls `byteorder::BigEndian::read_u16`, which reads the first two bytes
/// of `buf` as a big-endian number and panics on a shorter slice.
#[verifier::external_body]
fn read_u16_be(buf: &[u8]) -> (r: u16)
    requires
        buf@.len() >= 2,
    ensures
        r as nat == be_value(buf@.subrange(0, 2)),
{
    BigEndian::read_u16(buf)
}

/// Calls `byteorder::BigEndian::read_u32`, which reads the first four bytes
/// of `buf` as a big-endian number and panics on a shorter slice.
#[verifier::external_body]
fn read_u32_be(buf: &[u8]) -> (r: u32)
    requires
        buf@.len() >= 4,
    ensures
        r as nat == be_value(buf@.subrange(0, 4)),
{
    BigEndian::read_u32(buf)
}

/// Calls `byteorder::BigEndian::read_u128`, which reads the first sixteen
/// bytes of `buf` as a big-endian number and panics on a shorter slice.
#[verifier::external_body]
fn read_u128_be(buf: &[u8]) -> (r: u128)
    requires
        buf@.len() >= 16,
    ensures
        r as nat == be_value(buf@.subrange(0, 16)),
{
    BigEndian::read_u128(buf)
}

/// The error that `std::str::from_utf8` reports for bytes that are not
/// well-formed UTF-8.
pub uninterp spec fn utf8_error(bytes: Seq<u8>) -> core::str::Utf8Error;

/// `std::str::from_utf8` succeeds exactly on well-formed UTF-8, and the
/// string it returns is encoded by the bytes it was given. What it reports
/// of other bytes depends on the bytes alone.
pub assume_specification[ core::str::from_utf8 ](v: &[u8]) -> (r: Result<
    &str,
    core::str::Utf8Error,
>)
    ensures
        r is Ok <==> valid_utf8(v@),
        r matches Ok(s) ==> encode_utf8(s@) == v@,
        r matches Err(e) ==> e == utf8_error(v@),
;

/// Why a decoder did not return a message.
#[derive(Debug)]
pub enum DecodeError {
    /// The input ends before the message does: fetch `missing` more bytes
    /// and decode again.
    Incomplete { missing: usize },
    /// The greeting does not open with the protocol version.
    MalformedGreeting,
    /// The request does not open with the protocol version.
    MalformedRequest,
    /// The address type is none of IPv4, domain name and IPv6.
    UnsupportedAddressType,
    /// The domain name is not UTF-8 text.
    InvalidEncoding(std::str::Utf8Error),
}

/// A `DecodeError` as a mathematical value.
pub enum DecodeFailure {
    Incomplete { missing: nat },
    MalformedGreeting,
    MalformedRequest,
    UnsupportedAddressType,
    InvalidEncoding { source: std::str::Utf8Error },
}

impl View for DecodeError {
    type V = DecodeFailure;

    open spec fn view(&self) -> DecodeFailure {
        match *self {
            DecodeError::Incomplete { missing } => DecodeFailure::Incomplete {
                missing: missing as nat,
            },
            DecodeError::MalformedGreeting => DecodeFailure::MalformedGreeting,
            DecodeError::MalformedRequest => DecodeFailure::MalformedRequest,
            DecodeError::UnsupportedAddressType => DecodeFailure::UnsupportedAddressType,
            DecodeError::InvalidEncoding(source) => DecodeFailure::InvalidEncoding { source },
        }
    }
}

/// What a decoder returned, seen through the views of both outcomes.
pub open spec fn decoded<T: View>(r: Result<T, DecodeError>) -> Result<T::V, DecodeFailure> {
    match r {
        Ok(message) => Ok(message@),
        Err(e) => Err(e@),
    }
}

/// The client's opening message: the authentication methods it offers.
#[derive(Debug)]
pub struct Greeting {
    pub version: u8,
    pub methods: Vec<u8>,
}

/// A greeting as a mathematical value.
pub struct GreetingView {
    pub version: u8,
    pub methods: Seq<u8>,
}

impl View for Greeting {
    type V = GreetingView;

    open spec fn view(&self) -> GreetingView {
        GreetingView { version: self.version, methods: self.methods@ }
    }
}

/// The proxy's answer to a greeting.
#[derive(Debug, Clone, Copy, PartialEq, Eq, Structural)]
pub enum MethodChoice {
    /// The session goes on without authentication.
    NoAuthentication,
    /// The client offered nothing that the proxy accepts.
    NoAcceptableMethods,
}

impl MethodChoice {
    /// The method code that stands for this choice on the wire.
    pub open spec fn spec_code(self) -> u8 {
        match self {
            MethodChoice::NoAuthentication => NO_AUTHENTICATION,
            MethodChoice::NoAcceptableMethods => NO_ACCEPTABLE_METHODS,
        }
    }

    /// The method code that stands for this choice on the wire.
    #[verifier::when_used_as_spec(spec_code)]
    pub fn code(self) -> (c: u8)
        ensures
            c == self.spec_code(),
    {
        match self {
            MethodChoice::NoAuthentication => NO_AUTHENTICATION,
            MethodChoice::NoAcceptableMethods => NO_ACCEPTABLE_METHODS,
        }
    }
}

/// The greeting at the front of `bytes`: the version, a count, and that many
/// method codes.
pub open spec fn parse_greeting(bytes: Seq<u8>) -> Result<GreetingView, DecodeFailure> {
    if bytes.len() >= 1 && bytes[0] != SOCKS_VERSION {
        Err(DecodeFailure::MalformedGreeting)
    } else if bytes.len() < 2 {
        Err(DecodeFailure::Incomplete { missing: (2 - bytes.len()) as nat })
    } else if bytes.len() < 2 + bytes[1] {
        Err(DecodeFailure::Incomplete { missing: (2 + bytes[1] - bytes.len()) as nat })
    } else {
        Ok(GreetingView { version: bytes[0], methods: bytes.subrange(2, 2 + bytes[1]) })
    }
}

/// The method that answers an offer: no authentication where the client
/// offers it, and a refusal otherwise.
pub open spec fn choose_method(methods: Seq<u8>) -> MethodChoice {
    if methods.contains(NO_AUTHENTICATION) {
        MethodChoice::NoAuthentication
    } else {
        MethodChoice::NoAcceptableMethods
    }
}

/// The two bytes that tell the client which method was chosen.
pub open spec fn method_reply(choice: MethodChoice) -> Seq<u8> {
    seq![SOCKS_VERSION, choice.spec_code()]
}

/// Decodes the greeting at the front of `bytes`.
pub fn decode_greeting(bytes: &[u8]) -> (r: Result<Greeting, DecodeError>)
    ensures
        decoded(r) == parse_greeting(bytes@),
{
    let len = bytes.len();
    if len >= 1 && bytes[0] != SOCKS_VERSION {
        return Err(DecodeError::MalformedGreeting);
    }
    if len < 2 {
        return Err(DecodeError::Incomplete { missing: 2 - len });
    }
    let count = bytes[1] as usize;
    if len - 2 < count {
        return Err(DecodeError::Incomplete { missing: count - (len - 2) });
    }
    let methods = slice_to_vec(slice_subrange(bytes, 2, 2 + count));
    Ok(Greeting { version: bytes[0], methods })
}

/// Chooses the method that answers `greeting`.
pub fn select_method(greeting: &Greeting) -> (choice: MethodChoice)
    ensures
        choice == choose_method(greeting.methods@),
{
    let mut i: usize = 0;
    while i < greeting.methods.len()
        invariant
            i <= greeting.methods.len(),
            !greeting.methods@.subrange(0, i as int).contains(NO_AUTHENTICATION),
        decreases greeting.methods.len() - i,
    {
        if greeting.methods[i] == NO_AUTHENTICATION {
            return MethodChoice::NoAuthentication;
        }
        i += 1;
    }
    assert(greeting.methods@.subrange(0, i as int) == greeting.methods@);
    MethodChoice::NoAcceptableMethods
}

/// Encodes the answer to a greeting.
pub fn encode_method_reply(choice: MethodChoice) -> (bytes: Vec<u8>)
    ensures
        bytes@ == method_reply(choice),
{
    let mut bytes: Vec<u8> = Vec::new();
    bytes.push(SOCKS_VERSION);
    bytes.push(choice.code());
    bytes
}

/// The four bytes that open a request.
#[derive(Debug, Clone, Copy, PartialEq, Eq, Structural)]
pub struct RequestHeader {
    pub version: u8,
    pub command: u8,
    pub reserved: u8,
    pub address_type: u8,
}

/// A socket address in numbers: where the proxy connects to.
#[allow(inconsistent_fields)]
#[derive(Debug, Clone, Copy, PartialEq, Eq, Structural)]
pub enum TargetAddress {
    V4 { addr: u32, port: u16 },
    V6 { addr: u128, port: u16, flowinfo: u32, scope_id: u32 },
}

/// The address that a request names, as it stands on the wire.
#[allow(inconsistent_fields)]
#[derive(Debug)]
pub enum Address {
    V4 { addr: u32, port: u16 },
    Domain { name: String, port: u16 },
    V6 { addr: u128, port: u16 },
}

/// An address as a mathematical value.
#[allow(inconsistent_fields)]
pub enum AddressView {
    V4 { addr: u32, port: u16 },
    Domain { name: Seq<char>, port: u16 },
    V6 { addr: u128, port: u16 },
}

impl View for Address {
    type V = AddressView;

    open spec fn view(&self) -> AddressView {
        match *self {
            Address::V4 { addr, port } => AddressView::V4 { addr, port },
            Address::Domain { name, port } => AddressView::Domain { name: name@, port },
            Address::V6 { addr, port } => AddressView::V6 { addr, port },
        }
    }
}

/// A decoded request: its header and the address it names.
#[derive(Debug)]
pub struct ConnectRequest {
    pub header: RequestHeader,
    pub address: Address,
}

/// A request as a mathematical value.
pub struct ConnectRequestView {
    pub header: RequestHeader,
    pub address: AddressView,
}

impl View for ConnectRequest {
    type V = ConnectRequestView;

    open spec fn view(&self) -> ConnectRequestView {
        ConnectRequestView { header: self.header, address: self.address@ }
    }
}

impl View for RequestHeader {
    type V = RequestHeader;

    open spec fn view(&self) -> RequestHeader {
        *self
    }
}

/// How a CONNECT request ended.
#[derive(Debug, Clone, Copy, PartialEq, Eq, Structural)]
pub enum ConnectOutcome {
    Succeeded,
    Failed,
}

impl ConnectOutcome {
    /// The status byte that reports this outcome.
    pub open spec fn spec_status(self) -> u8 {
        match self {
            ConnectOutcome::Succeeded => REPLY_SUCCEEDED,
            ConnectOutcome::Failed => REPLY_FAILED,
        }
    }

    /// The status byte that reports this outcome.
    #[verifier::when_used_as_spec(spec_status)]
    pub fn status(self) -> (s: u8)
        ensures
            s == self.spec_status(),
    {
        match self {
            ConnectOutcome::Succeeded => REPLY_SUCCEEDED,
            ConnectOutcome::Failed => REPLY_FAILED,
        }
    }
}

/// The request header at the front of `bytes`.
pub open spec fn parse_request_header(bytes: Seq<u8>) -> Result<RequestHeader, DecodeFailure> {
    if bytes.len() >= 1 && bytes[0] != SOCKS_VERSION {
        Err(DecodeFailure::MalformedRequest)
    } else if bytes.len() < 4 {
        Err(DecodeFailure::Incomplete { missing: (4 - bytes.len()) as nat })
    } else {
        Ok(
            RequestHeader {
                version: bytes[0],
                command: bytes[1],
                reserved: bytes[2],
                address_type: bytes[3],
            },
        )
    }
}

/// The IPv4 address at the front of `payload`: four address bytes and two
/// port bytes, both big-endian.
pub open spec fn parse_ipv4(payload: Seq<u8>) -> Result<AddressView, DecodeFailure> {
    if payload.len() < 6 {
        Err(DecodeFailure::Incomplete { missing: (6 - payload.len()) as nat })
    } else {
        Ok(
            AddressView::V4 {
                addr: be_value(payload.subrange(0, 4)) as u32,
                port: be_value(payload.subrange(4, 6)) as u16,
            },
        )
    }
}

/// The domain name at the front of `payload`: a length byte, that many bytes
/// of UTF-8 text, and two port bytes, big-endian. A name that is not UTF-8
/// fails with what `std::str::from_utf8` reports of it.
pub open spec fn parse_domain(payload: Seq<u8>) -> Result<AddressView, DecodeFailure> {
    if payload.len() < 1 {
        Err(DecodeFailure::Incomplete { missing: 1 })
    } else if payload.len() < 3 + payload[0] {
        Err(DecodeFailure::Incomplete { missing: (3 + payload[0] - payload.len()) as nat })
    } else if !valid_utf8(payload.subrange(1, 1 + payload[0])) {
        Err(
            DecodeFailure::InvalidEncoding {
                source: utf8_error(payload.subrange(1, 1 + payload[0])),
            },
        )
    } else {
        Ok(
            AddressView::Domain {
                name: decode_utf8(payload.subrange(1, 1 + payload[0])),
                port: be_value(payload.subrange(1 + payload[0], 3 + payload[0])) as u16,
            },
        )
    }
}

/// The IPv6 address at the front of `payload`: sixteen address bytes and two
/// port bytes, both big-endian.
pub open spec fn parse_ipv6(payload: Seq<u8>) -> Result<AddressView, DecodeFailure> {
    if payload.len() < 18 {
        Err(DecodeFailure::Incomplete { missing: (18 - payload.len()) as nat })
    } else {
        Ok(
            AddressView::V6 {
                addr: be_value(payload.subrange(0, 16)) as u128,
                port: be_value(payload.subrange(16, 18)) as u16,
            },
        )
    }
}

/// The address of type `address_type` at the front of `payload`.
pub open spec fn parse_address(address_type: u8, payload: Seq<u8>) -> Result<
    AddressView,
    DecodeFailure,
> {
    if address_type == ATYP_IPV4 {
        parse_ipv4(payload)
    } else if address_type == ATYP_DOMAIN {
        parse_domain(payload)
    } else if address_type == ATYP_IPV6 {
        parse_ipv6(payload)
    } else {
        Err(DecodeFailure::UnsupportedAddressType)
    }
}

/// The request at the front of `bytes`: the header, then the address that
/// the header's address type announces.
pub open spec fn parse_request(bytes: Seq<u8>) -> Result<ConnectRequestView, DecodeFailure> {
    match parse_request_header(bytes) {
        Err(e) => Err(e),
        Ok(header) => match parse_address(header.address_type, bytes.skip(4)) {
            Err(e) => Err(e),
            Ok(address) => Ok(ConnectRequestView { header, address }),
        },
    }
}

/// The ten bytes that report how a CONNECT request ended. The bound address
/// and port are always zero.
pub open spec fn connect_reply(outcome: ConnectOutcome) -> Seq<u8> {
    seq![SOCKS_VERSION, outcome.spec_status(), 0x00, ATYP_IPV4, 0, 0, 0, 0, 0, 0]
}

/// Decodes the request header at the front of `bytes`.
pub fn decode_request_header(bytes: &[u8]) -> (r: Result<RequestHeader, DecodeError>)
    ensures
        decoded(r) == parse_request_header(bytes@),
{
    let len = bytes.len();
    if len >= 1 && bytes[0] != SOCKS_VERSION {
        return Err(DecodeError::MalformedRequest);
    }
    if len < 4 {
        return Err(DecodeError::Incomplete { missing: 4 - len });
    }
    Ok(
        RequestHeader {
            version: bytes[0],
            command: bytes[1],
            reserved: bytes[2],
            address_type: bytes[3],
        },
    )
}

/// Decodes the IPv4 address at the front of `payload`.
pub fn decode_ipv4(payload: &[u8]) -> (r: Result<Address, DecodeError>)
    ensures
        decoded(r) == parse_ipv4(payload@),
{
    let len = payload.len();
    if len < 6 {
        return Err(DecodeError::Incomplete { missing: 6 - len });
    }
    let addr = read_u32_be(slice_subrange(payload, 0, 4));
    let port = read_u16_be(slice_subrange(payload, 4, 6));
    proof {
        assert(payload@.subrange(0, 4).subrange(0, 4) == payload@.subrange(0, 4));
        assert(payload@.subrange(4, 6).subrange(0, 2) == payload@.subrange(4, 6));
    }
    Ok(Address::V4 { addr, port })
}

/// Decodes the domain name at the front of `payload`.
pub fn decode_domain(payload: &[u8]) -> (r: Result<Address, DecodeError>)
    ensures
        decoded(r) == parse_domain(payload@),
{
    let len = payload.len();
    if len < 1 {
        return Err(DecodeError::Incomplete { missing: 1 });
    }
    let name_len = payload[0] as usize;
    if len - 1 < name_len + 2 {
        return Err(DecodeError::Incomplete { missing: name_len + 2 - (len - 1) });
    }
    let name_bytes = slice_subrange(payload, 1, 1 + name_len);
    match core::str::from_utf8(name_bytes) {
        Err(e) => Err(DecodeError::InvalidEncoding(e)),
        Ok(text) => {
            let port = read_u16_be(slice_subrange(payload, 1 + name_len, 3 + name_len));
            let name = text.to_owned();
            proof {
                encode_utf8_decode_utf8(text@);
                let port_bytes = payload@.subrange(1 + name_len, 3 + name_len);
                assert(port_bytes.subrange(0, 2) == port_bytes);
            }
            Ok(Address::Domain { name, port })
        },
    }
}

/// Decodes the IPv6 address at the front of `payload`.
pub fn decode_ipv6(payload: &[u8]) -> (r: Result<Address, DecodeError>)
    ensures
        decoded(r) == parse_ipv6(payload@),
{
    let len = payload.len();
    if len < 18 {
        return Err(DecodeError::Incomplete { missing: 18 - len });
    }
    let addr = read_u128_be(slice_subrange(payload, 0, 16));
    let port = read_u16_be(slice_subrange(payload, 16, 18));
    proof {
        assert(payload@.subrange(0, 16).subrange(0, 16) == payload@.subrange(0, 16));
        assert(payload@.subrange(16, 18).subrange(0, 2) == payload@.subrange(16, 18));
    }
    Ok(Address::V6 { addr, port })
}

/// Decodes the address of type `address_type` at the front of `payload`.
pub fn decode_address(address_type: u8, payload: &[u8]) -> (r: Result<Address, DecodeError>)
    ensures
        decoded(r) == parse_address(address_type, payload@),
{
    if address_type == ATYP_IPV4 {
        decode_ipv4(payload)
    } else if address_type == ATYP_DOMAIN {
        decode_domain(payload)
    } else if address_type == ATYP_IPV6 {
        decode_ipv6(payload)
    } else {
        Err(DecodeError::UnsupportedAddressType)
    }
}

/// Decodes the request at the front of `bytes`.
pub fn decode_request(bytes: &[u8]) -> (r: Result<ConnectRequest, DecodeError>)
    ensures
        decoded(r) == parse_request(bytes@),
{
    match decode_request_header(bytes) {
        Err(e) => Err(e),
        Ok(header) => {
            let payload = slice_subrange(bytes, 4, bytes.len());
            match decode_address(header.address_type, payload) {
                Err(e) => Err(e),
                Ok(address) => Ok(ConnectRequest { header, address }),
            }
        },
    }
}

/// Encodes the reply to a CONNECT request.
pub fn encode_connect_reply(outcome: ConnectOutcome) -> (bytes: Vec<u8>)
    ensures
        bytes@ == connect_reply(outcome),
{
    let mut bytes: Vec<u8> = Vec::new();
    bytes.push(SOCKS_VERSION);
    bytes.push(outcome.status());
    bytes.push(0x00);
    bytes.push(ATYP_IPV4);
    let mut i: usize = 0;
    while i < 6
        invariant
            i <= 6,
            bytes@ == connect_reply(outcome).subrange(0, 4 + i),
        decreases 6 - i,
    {
        bytes.push(0);
        i += 1;
    }
    bytes
}

/// A big-endian number of `n` bytes is below `256^n`: two bytes fit a `u16`,
/// four a `u32` and sixteen a `u128`, so the decoders drop no bits.
pub proof fn be_value_fits(bytes: Seq<u8>)
    ensures
        be_value(bytes) < pow(256, bytes.len()),
        bytes.len() == 2 ==> be_value(bytes) <= u16::MAX,
        bytes.len() == 4 ==> be_value(bytes) <= u32::MAX,
        bytes.len() == 16 ==> be_value(bytes) <= u128::MAX,
    decreases bytes.len(),
{
    reveal(pow);
    if bytes.len() > 0 {
        let front = bytes.drop_last();
        be_value_fits(front);
        assert(pow(256, bytes.len()) == 256 * pow(256, front.len()));
    }
    assert(pow(256, 2) == 0x1_0000 && pow(256, 4) == 0x1_0000_0000 && pow(256, 16)
        == 0x1_0000_0000_0000_0000_0000_0000_0000_0000) by {
        reveal_with_fuel(pow, 17);
    }
}

/// Two bytes spell the first times 256 plus the second.
pub proof fn be_value_of_two(bytes: Seq<u8>)
    requires
        bytes.len() == 2,
    ensures
        be_value(bytes) == bytes[0] * 0x100 + bytes[1],
{
    reveal_with_fuel(be_value, 3);
}

/// Four bytes spell their base-256 number, the first byte weighing most.
pub proof fn be_value_of_four(bytes: Seq<u8>)
    requires
        bytes.len() == 4,
    ensures
        be_value(bytes) == bytes[0] * 0x100_0000 + bytes[1] * 0x1_0000 + bytes[2] * 0x100
            + bytes[3],
{
    reveal_with_fuel(be_value, 5);
}

/// A greeting is decoded from the front of the input: bytes that follow it
/// change nothing.
pub proof fn greeting_ignores_what_follows(bytes: Seq<u8>, rest: Seq<u8>)
    requires
        parse_greeting(bytes) is Ok,
    ensures
        parse_greeting(bytes + rest) == parse_greeting(bytes),
{
    assert((bytes + rest).subrange(2, 2 + bytes[1]) == bytes.subrange(2, 2 + bytes[1]));
}

/// A request is decoded from the front of the input: bytes that follow it
/// change nothing.
pub proof fn request_ignores_what_follows(bytes: Seq<u8>, rest: Seq<u8>)
    requires
        parse_request(bytes) is Ok,
    ensures
        parse_request(bytes + rest) == parse_request(bytes),
{
    let header = parse_request_header(bytes)->Ok_0;
    let payload = bytes.skip(4);
    assert((bytes + rest).skip(4) == payload + rest);
    let longer = payload + rest;
    if header.address_type == ATYP_IPV4 {
        assert(longer.subrange(0, 4) == payload.subrange(0, 4));
        assert(longer.subrange(4, 6) == payload.subrange(4, 6));
    } else if header.address_type == ATYP_DOMAIN {
        let n = payload[0] as int;
        assert(longer.subrange(1, 1 + n) == payload.subrange(1, 1 + n));
        assert(longer.subrange(1 + n, 3 + n) == payload.subrange(1 + n, 3 + n));
    } else {
        assert(longer.subrange(0, 16) == payload.subrange(0, 16));
        assert(longer.subrange(16, 18) == payload.subrange(16, 18));
    }
}

} // verus!
