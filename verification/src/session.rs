//! The server's side of the SOCKS5 negotiation as a state machine.
//!
//! The caller owns the connection. It asks the session what to read, reads
//! exactly that many bytes and hands them to [`Socks5Session::on_bytes`]; it
//! writes the reply of each step (if any) before it performs the step's
//! action. When the action is to connect, it connects to the target and
//! reports the local address of the new connection, or the failure, to
//! [`Socks5Session::on_connect`].

use vstd::prelude::*;
use crate::protocol::{
    SOCKS_VERSION, NO_AUTH, AUTH_METHOD_NOT_ACCEPTABLE, CONNECT, IPV4_ADDRESS, DOMAIN_NAME,
    IPV6_ADDRESS, SUCCEEDED, HOST_UNREACHABLE, COMMAND_NOT_SUPPORTED, ADDRESS_TYPE_NOT_SUPPORTED,
};
use crate::address::{SpecTarget, TargetAddr, BindAddr, be16, port_from_be};
use crate::text::{decimal, decimal_string};
use crate::reply::{
    method_reply, failure_reply, create_response, method_reply_bytes, failure_reply_bytes,
    response_bytes, read_reply, bind_parts,
};

verus! {

/// Why a negotiation ends without a relayed connection.
#[derive(Clone, Copy, Debug, PartialEq, Eq, Structural)]
pub enum Socks5Error {
    /// The greeting carried this version byte instead of 5.
    UnsupportedVersion(u8),
    /// The client offered no method that needs no authentication.
    NoAcceptableAuthMethod,
    /// The request carried this version byte instead of 5.
    UnexpectedVersion(u8),
    /// The request asked for this command; only CONNECT is served.
    UnsupportedCommand(u8),
    /// The request named this address type.
    UnsupportedAddressType(u8),
    /// The connection to the target could not be made.
    ConnectFailed,
}

/// The text of an error, as the server reports it.
pub open spec fn error_text(e: Socks5Error) -> Seq<char> {
    match e {
        Socks5Error::UnsupportedVersion(v) => "Unsupported SOCKS version: "@ + decimal(v as nat),
        Socks5Error::NoAcceptableAuthMethod => "No supported authentication methods"@,
        Socks5Error::UnexpectedVersion(v) => "Unexpected SOCKS version: "@ + decimal(v as nat),
        Socks5Error::UnsupportedCommand(c) => "Unsupported command: "@ + decimal(c as nat),
        Socks5Error::UnsupportedAddressType(t) => "Unsupported address type: "@ + decimal(t as nat),
        Socks5Error::ConnectFailed => "Failed to connect to target"@,
    }
}

impl Socks5Error {
    /// The text of this error, such as `Unsupported SOCKS version: 4`.
    pub fn message(&self) -> (s: String)
        ensures
            s@ == error_text(*self),
    {
        match self {
            Socks5Error::UnsupportedVersion(v) => {
                let mut s = String::from_str("Unsupported SOCKS version: ");
                s.append(decimal_string(*v as u16).as_str());
                s
            },
            Socks5Error::NoAcceptableAuthMethod => String::from_str(
                "No supported authentication methods",
            ),
            Socks5Error::UnexpectedVersion(v) => {
                let mut s = String::from_str("Unexpected SOCKS version: ");
                s.append(decimal_string(*v as u16).as_str());
                s
            },
            Socks5Error::UnsupportedCommand(c) => {
                let mut s = String::from_str("Unsupported command: ");
                s.append(decimal_string(*c as u16).as_str());
                s
            },
            Socks5Error::UnsupportedAddressType(t) => {
                let mut s = String::from_str("Unsupported address type: ");
                s.append(decimal_string(*t as u16).as_str());
                s
            },
            Socks5Error::ConnectFailed => String::from_str("Failed to connect to target"),
        }
    }
}

/// Where the negotiation stands.
#[derive(Clone, Copy, Debug, PartialEq, Eq, Structural)]
pub enum Stage {
    /// Waiting for the version and the number of offered methods.
    Greeting,
    /// Waiting for the `count` offered methods.
    Methods { count: u8 },
    /// Waiting for version, command, reserved byte and address type.
    Request,
    /// Waiting for a four-byte IPv4 address and a port.
    Ipv4Address,
    /// Waiting for the length of a domain name.
    DomainLength,
    /// Waiting for a domain name of `len` bytes and a port.
    DomainName { len: u8 },
    /// Waiting for a sixteen-byte IPv6 address and a port.
    Ipv6Address,
    /// Waiting for the outcome of the connection to the target.
    Connecting,
    /// The connection is established and data is relayed.
    Relaying,
    /// The negotiation has failed.
    Closed,
}

/// What the caller does after writing a step's reply.
pub enum Action {
    /// Read exactly this many bytes and hand them to `on_bytes`.
    Read(usize),
    /// Connect to the target and hand the outcome to `on_connect`.
    Connect(TargetAddr),
    /// Relay data between client and target in both directions.
    Relay,
    /// End the session with this error.
    Close(Socks5Error),
}

/// One step of the negotiation: a reply to write first, if any, then an action.
pub struct Step {
    pub reply: Option<Vec<u8>>,
    pub action: Action,
}

/// An [`Action`] as the model sees it.
pub enum SpecAction {
    Read(nat),
    Connect(SpecTarget),
    Relay,
    Close(Socks5Error),
}

/// A [`Step`] as the model sees it.
pub struct SpecStep {
    pub reply: Option<Seq<u8>>,
    pub action: SpecAction,
}

impl View for Action {
    type V = SpecAction;

    open spec fn view(&self) -> SpecAction {
        match self {
            Action::Read(n) => SpecAction::Read(*n as nat),
            Action::Connect(t) => SpecAction::Connect(t@),
            Action::Relay => SpecAction::Relay,
            Action::Close(e) => SpecAction::Close(*e),
        }
    }
}

impl View for Step {
    type V = SpecStep;

    open spec fn view(&self) -> SpecStep {
        SpecStep {
            reply: match self.reply {
                Some(r) => Some(r@),
                None => None,
            },
            action: self.action@,
        }
    }
}

/// A step with the given reply and action.
pub open spec fn step(reply: Option<Seq<u8>>, action: SpecAction) -> SpecStep {
    SpecStep { reply, action }
}

/// How many bytes the session waits for at `stage`; `None` where it waits
/// for no bytes.
pub open spec fn bytes_wanted(stage: Stage) -> Option<nat> {
    match stage {
        Stage::Greeting => Some(2),
        Stage::Methods { count } => Some(count as nat),
        Stage::Request => Some(4),
        Stage::Ipv4Address => Some(6),
        Stage::DomainLength => Some(1),
        Stage::DomainName { len } => Some(len as nat + 2),
        Stage::Ipv6Address => Some(18),
        _ => None,
    }
}

/// The target named by address bytes followed by a big-endian port, the
/// address being `len` bytes long.
pub open spec fn target_from(input: Seq<u8>, len: int) -> (Seq<u8>, u16) {
    (input.take(len), be16(input[len], input[len + 1]))
}

/// What the session does with the bytes it waited for at `stage`: the next
/// stage and the step.
pub open spec fn next_on_bytes(stage: Stage, input: Seq<u8>) -> (Stage, SpecStep) {
    match stage {
        Stage::Greeting => if input[0] != SOCKS_VERSION {
            (Stage::Closed, step(None, SpecAction::Close(Socks5Error::UnsupportedVersion(input[0]))))
        } else {
            (Stage::Methods { count: input[1] }, step(None, SpecAction::Read(input[1] as nat)))
        },
        Stage::Methods { .. } => if input.contains(NO_AUTH) {
            (Stage::Request, step(Some(method_reply_bytes(NO_AUTH)), SpecAction::Read(4)))
        } else {
            (
                Stage::Closed,
                step(
                    Some(method_reply_bytes(AUTH_METHOD_NOT_ACCEPTABLE)),
                    SpecAction::Close(Socks5Error::NoAcceptableAuthMethod),
                ),
            )
        },
        Stage::Request => if input[0] != SOCKS_VERSION {
            (Stage::Closed, step(None, SpecAction::Close(Socks5Error::UnexpectedVersion(input[0]))))
        } else if input[1] != CONNECT {
            (
                Stage::Closed,
                step(
                    Some(failure_reply_bytes(COMMAND_NOT_SUPPORTED)),
                    SpecAction::Close(Socks5Error::UnsupportedCommand(input[1])),
                ),
            )
        } else if input[3] == IPV4_ADDRESS {
            (Stage::Ipv4Address, step(None, SpecAction::Read(6)))
        } else if input[3] == DOMAIN_NAME {
            (Stage::DomainLength, step(None, SpecAction::Read(1)))
        } else if input[3] == IPV6_ADDRESS {
            (Stage::Ipv6Address, step(None, SpecAction::Read(18)))
        } else {
            (
                Stage::Closed,
                step(
                    Some(failure_reply_bytes(ADDRESS_TYPE_NOT_SUPPORTED)),
                    SpecAction::Close(Socks5Error::UnsupportedAddressType(input[3])),
                ),
            )
        },
        Stage::Ipv4Address => {
            let (a, p) = target_from(input, 4);
            (Stage::Connecting, step(None, SpecAction::Connect(SpecTarget::Ipv4(a, p))))
        },
        Stage::DomainLength => (
            Stage::DomainName { len: input[0] },
            step(None, SpecAction::Read(input[0] as nat + 2)),
        ),
        Stage::DomainName { len } => {
            let (a, p) = target_from(input, len as int);
            (Stage::Connecting, step(None, SpecAction::Connect(SpecTarget::Domain(a, p))))
        },
        Stage::Ipv6Address => {
            let (a, p) = target_from(input, 16);
            (Stage::Connecting, step(None, SpecAction::Connect(SpecTarget::Ipv6(a, p))))
        },
        _ => (stage, step(None, SpecAction::Close(Socks5Error::ConnectFailed))),
    }
}

/// What the session does with the outcome of the connection to the target:
/// the local address of the new connection, or `None` where it failed.
pub open spec fn next_on_connect(bound: Option<BindAddr>) -> (Stage, SpecStep) {
    match bound {
        Some(addr) => (Stage::Relaying, step(Some(response_bytes(SUCCEEDED, addr)), SpecAction::Relay)),
        None => (
            Stage::Closed,
            step(
                Some(failure_reply_bytes(HOST_UNREACHABLE)),
                SpecAction::Close(Socks5Error::ConnectFailed),
            ),
        ),
    }
}

/// One client's negotiation.
pub struct Socks5Session {
    pub stage: Stage,
}

/// Whether `bytes` holds the method that needs no authentication.
fn offers_no_auth(bytes: &[u8]) -> (b: bool)
    ensures
        b == bytes@.contains(NO_AUTH),
{
    let mut i: usize = 0;
    while i < bytes.len()
        invariant
            i <= bytes@.len(),
            forall|j: int| 0 <= j < i ==> bytes@[j] != NO_AUTH,
        decreases bytes@.len() - i,
    {
        if bytes[i] == NO_AUTH {
            assert(bytes@[i as int] == NO_AUTH);
            return true;
        }
        i = i + 1;
    }
    false
}

/// The first `len` bytes of `bytes`.
fn prefix_vec(bytes: &[u8], len: usize) -> (v: Vec<u8>)
    requires
        len <= bytes@.len(),
    ensures
        v@ == bytes@.take(len as int),
{
    let mut v: Vec<u8> = Vec::new();
    let mut i: usize = 0;
    while i < len
        invariant
            i <= len <= bytes@.len(),
            v@ == bytes@.take(i as int),
        decreases len - i,
    {
        v.push(bytes[i]);
        i = i + 1;
        assert(bytes@.take(i as int) =~= bytes@.take((i - 1) as int).push(bytes@[i - 1]));
    }
    v
}

/// A step with no reply.
fn quiet(action: Action) -> (s: Step)
    ensures
        s.reply is None,
        s.action == action,
{
    Step { reply: None, action }
}

impl Socks5Session {
    /// A session that waits for the client's greeting.
    pub fn new() -> (s: Self)
        ensures
            s.stage == Stage::Greeting,
    {
        Socks5Session { stage: Stage::Greeting }
    }

    /// How many bytes the session waits for, or `None` where it waits for
    /// none (connecting, relaying, closed).
    pub fn wanted(&self) -> (n: Option<usize>)
        ensures
            match n {
                Some(k) => bytes_wanted(self.stage) == Some(k as nat),
                None => bytes_wanted(self.stage) is None,
            },
    {
        match self.stage {
            Stage::Greeting => Some(2),
            Stage::Methods { count } => Some(count as usize),
            Stage::Request => Some(4),
            Stage::Ipv4Address => Some(6),
            Stage::DomainLength => Some(1),
            Stage::DomainName { len } => Some(len as usize + 2),
            Stage::Ipv6Address => Some(18),
            _ => None,
        }
    }

    /// Takes the bytes the session waited for and says what to write and do
    /// next.
    pub fn on_bytes(&mut self, input: &[u8]) -> (s: Step)
        requires
            bytes_wanted(old(self).stage) == Some(input@.len()),
        ensures
            (final(self).stage, s@) == next_on_bytes(old(self).stage, input@),
            s@.action matches SpecAction::Read(n) ==> bytes_wanted(final(self).stage) == Some(n),
    {
        match self.stage {
            Stage::Greeting => {
                if input[0] != SOCKS_VERSION {
                    self.stage = Stage::Closed;
                    quiet(Action::Close(Socks5Error::UnsupportedVersion(input[0])))
                } else {
                    self.stage = Stage::Methods { count: input[1] };
                    quiet(Action::Read(input[1] as usize))
                }
            },
            Stage::Methods { .. } => {
                if offers_no_auth(input) {
                    self.stage = Stage::Request;
                    Step { reply: Some(method_reply(NO_AUTH)), action: Action::Read(4) }
                } else {
                    self.stage = Stage::Closed;
                    Step {
                        reply: Some(method_reply(AUTH_METHOD_NOT_ACCEPTABLE)),
                        action: Action::Close(Socks5Error::NoAcceptableAuthMethod),
                    }
                }
            },
            Stage::Request => {
                if input[0] != SOCKS_VERSION {
                    self.stage = Stage::Closed;
                    quiet(Action::Close(Socks5Error::UnexpectedVersion(input[0])))
                } else if input[1] != CONNECT {
                    self.stage = Stage::Closed;
                    Step {
                        reply: Some(failure_reply(COMMAND_NOT_SUPPORTED)),
                        action: Action::Close(Socks5Error::UnsupportedCommand(input[1])),
                    }
                } else if input[3] == IPV4_ADDRESS {
                    self.stage = Stage::Ipv4Address;
                    quiet(Action::Read(6))
                } else if input[3] == DOMAIN_NAME {
                    self.stage = Stage::DomainLength;
                    quiet(Action::Read(1))
                } else if input[3] == IPV6_ADDRESS {
                    self.stage = Stage::Ipv6Address;
                    quiet(Action::Read(18))
                } else {
                    self.stage = Stage::Closed;
                    Step {
                        reply: Some(failure_reply(ADDRESS_TYPE_NOT_SUPPORTED)),
                        action: Action::Close(Socks5Error::UnsupportedAddressType(input[3])),
                    }
                }
            },
            Stage::Ipv4Address => {
                let addr: [u8; 4] = [input[0], input[1], input[2], input[3]];
                let port = port_from_be(input[4], input[5]);
                assert(addr@ =~= input@.take(4));
                self.stage = Stage::Connecting;
                quiet(Action::Connect(TargetAddr::Ipv4 { ipv4: addr, port }))
            },
            Stage::DomainLength => {
                self.stage = Stage::DomainName { len: input[0] };
                quiet(Action::Read(input[0] as usize + 2))
            },
            Stage::DomainName { len } => {
                let l = len as usize;
                let name = prefix_vec(input, l);
                let port = port_from_be(input[l], input[l + 1]);
                self.stage = Stage::Connecting;
                quiet(Action::Connect(TargetAddr::Domain { name, port }))
            },
            Stage::Ipv6Address => {
                let addr: [u8; 16] = [
                    input[0],
                    input[1],
                    input[2],
                    input[3],
                    input[4],
                    input[5],
                    input[6],
                    input[7],
                    input[8],
                    input[9],
                    input[10],
                    input[11],
                    input[12],
                    input[13],
                    input[14],
                    input[15],
                ];
                let port = port_from_be(input[16], input[17]);
                assert(addr@ =~= input@.take(16));
                self.stage = Stage::Connecting;
                quiet(Action::Connect(TargetAddr::Ipv6 { ipv6: addr, port }))
            },
            _ => quiet(Action::Close(Socks5Error::ConnectFailed)),
        }
    }

    /// Takes the outcome of the connection to the target: the local address
    /// of the new connection, or `None` where connecting failed.
    pub fn on_connect(&mut self, bound: Option<BindAddr>) -> (s: Step)
        requires
            old(self).stage == Stage::Connecting,
        ensures
            (final(self).stage, s@) == next_on_connect(bound),
            s@.reply matches Some(r) && read_reply(r) == Some(
                match bound {
                    Some(addr) => (SUCCEEDED, bind_parts(addr).0, bind_parts(addr).1),
                    None => (HOST_UNREACHABLE, seq![0u8, 0u8, 0u8, 0u8], 0u16),
                },
            ),
    {
        match bound {
            Some(addr) => {
                self.stage = Stage::Relaying;
                Step { reply: Some(create_response(SUCCEEDED, &addr)), action: Action::Relay }
            },
            None => {
                self.stage = Stage::Closed;
                proof {
                    crate::laws::lemma_failure_reply_reads_back(HOST_UNREACHABLE);
                }
                Step {
                    reply: Some(failure_reply(HOST_UNREACHABLE)),
                    action: Action::Close(Socks5Error::ConnectFailed),
                }
            },
        }
    }
}

} // verus!
