//! Addresses that appear in the handshake: the target a client asks for and
//! the local address the server reports once connected, with the textual form
//! of a target that a TCP connect takes.

use vstd::prelude::*;
use crate::protocol::{IPV4_ADDRESS, IPV6_ADDRESS};
use crate::text::{decimal, hex, decimal_string, hex_string};

verus! {

/// The port encoded by two big-endian bytes (`u16::from_be_bytes`).
pub open spec fn be16(hi: u8, lo: u8) -> u16 {
    (hi as nat * 256 + lo as nat) as u16
}

/// The two big-endian bytes of a port (`u16::to_be_bytes`).
pub open spec fn port_bytes(port: u16) -> Seq<u8> {
    seq![(port / 256) as u8, (port % 256) as u8]
}

/// The port read from two big-endian bytes.
pub fn port_from_be(hi: u8, lo: u8) -> (port: u16)
    ensures
        port == be16(hi, lo),
        port as int == hi as int * 256 + lo as int,
{
    (hi as u16) * 256 + (lo as u16)
}

/// A target as the model sees it: address bytes and port.
pub enum SpecTarget {
    Ipv4(Seq<u8>, u16),
    Domain(Seq<u8>, u16),
    Ipv6(Seq<u8>, u16),
}

/// The destination a client asks the server to connect to.
pub enum TargetAddr {
    /// An IPv4 address and port.
    Ipv4 { ipv4: [u8; 4], port: u16 },
    /// The raw bytes of a domain name (at most 255 of them) and a port.
    Domain { name: Vec<u8>, port: u16 },
    /// An IPv6 address and port.
    Ipv6 { ipv6: [u8; 16], port: u16 },
}

impl View for TargetAddr {
    type V = SpecTarget;

    open spec fn view(&self) -> SpecTarget {
        match self {
            TargetAddr::Ipv4 { ipv4, port } => SpecTarget::Ipv4(ipv4@, *port),
            TargetAddr::Domain { name, port } => SpecTarget::Domain(name@, *port),
            TargetAddr::Ipv6 { ipv6, port } => SpecTarget::Ipv6(ipv6@, *port),
        }
    }
}

/// The text that `String::from_utf8_lossy` makes of `bytes`: each maximal
/// invalid UTF-8 sequence replaced by U+FFFD.
pub uninterp spec fn utf8_lossy(bytes: Seq<u8>) -> Seq<char>;

/// Calls `String::from_utf8_lossy` and takes ownership of its text.
/// Trusted: the result is `utf8_lossy(bytes)`, and when every byte is ASCII
/// (valid UTF-8 of one byte per character) the text is those bytes read as
/// characters, as the function's documentation says of valid input.
#[verifier::external_body]
fn lossy_text(bytes: &[u8]) -> (s: String)
    ensures
        s@ == utf8_lossy(bytes@),
        (forall|i: int| 0 <= i < bytes@.len() ==> bytes@[i] < 128) ==> s@ == bytes@.map_values(
            |b: u8| b as char,
        ),
{
    String::from_utf8_lossy(bytes).into_owned()
}

/// The 16-bit group `k` of an IPv6 address.
pub open spec fn ipv6_group(a: Seq<u8>, k: int) -> u16 {
    be16(a[2 * k], a[2 * k + 1])
}

/// The first `k` groups of an IPv6 address in hexadecimal, joined by `':'`.
pub open spec fn ipv6_groups(a: Seq<u8>, k: nat) -> Seq<char>
    decreases k,
{
    if k == 0 {
        seq![]
    } else if k == 1 {
        hex(ipv6_group(a, 0) as nat)
    } else {
        ipv6_groups(a, (k - 1) as nat) + seq![':'] + hex(ipv6_group(a, k - 1) as nat)
    }
}

/// `a.b.c.d:port`, the decimal form of an IPv4 target.
pub open spec fn ipv4_text(a: Seq<u8>, port: u16) -> Seq<char> {
    decimal(a[0] as nat) + seq!['.'] + decimal(a[1] as nat) + seq!['.'] + decimal(a[2] as nat)
        + seq!['.'] + decimal(a[3] as nat) + seq![':'] + decimal(port as nat)
}

/// `[g0:g1:...:g7]:port`, the eight groups in hexadecimal without leading
/// zeros and without `::` compression.
pub open spec fn ipv6_text(a: Seq<u8>, port: u16) -> Seq<char> {
    seq!['['] + ipv6_groups(a, 8) + seq![']', ':'] + decimal(port as nat)
}

/// `host:port`, where `host` is the text already made of a domain name.
pub open spec fn host_port_text(host: Seq<char>, port: u16) -> Seq<char> {
    host + seq![':'] + decimal(port as nat)
}

/// The text of a target that a TCP connect is given.
pub open spec fn target_text(t: SpecTarget) -> Seq<char> {
    match t {
        SpecTarget::Ipv4(a, port) => ipv4_text(a, port),
        SpecTarget::Domain(name, port) => host_port_text(utf8_lossy(name), port),
        SpecTarget::Ipv6(a, port) => ipv6_text(a, port),
    }
}

/// Appends `"."` to `s`.
fn push_dot(s: &mut String)
    ensures
        final(s)@ == old(s)@ + seq!['.'],
{
    proof { reveal_strlit("."); }
    s.append(".");
}

/// Appends `":"` to `s`.
fn push_colon(s: &mut String)
    ensures
        final(s)@ == old(s)@ + seq![':'],
{
    proof { reveal_strlit(":"); }
    s.append(":");
}

/// Appends the decimal text of `n` to `s`.
fn push_decimal(s: &mut String, n: u16)
    ensures
        final(s)@ == old(s)@ + decimal(n as nat),
{
    let d = decimal_string(n);
    s.append(d.as_str());
}

/// `a.b.c.d:port`.
pub fn ipv4_target_text(addr: &[u8; 4], port: u16) -> (s: String)
    ensures
        s@ == ipv4_text(addr@, port),
{
    let mut s = String::new();
    push_decimal(&mut s, addr[0] as u16);
    push_dot(&mut s);
    push_decimal(&mut s, addr[1] as u16);
    push_dot(&mut s);
    push_decimal(&mut s, addr[2] as u16);
    push_dot(&mut s);
    push_decimal(&mut s, addr[3] as u16);
    push_colon(&mut s);
    push_decimal(&mut s, port);
    s
}

/// `[g0:...:g7]:port`.
pub fn ipv6_target_text(addr: &[u8; 16], port: u16) -> (s: String)
    ensures
        s@ == ipv6_text(addr@, port),
{
    let mut s = String::new();
    proof { reveal_strlit("["); }
    s.append("[");
    let ghost start = s@;
    let mut k: usize = 0;
    while k < 8
        invariant
            k <= 8,
            addr@.len() == 16,
            start == seq!['['],
            s@ == start + ipv6_groups(addr@, k as nat),
        decreases 8 - k,
    {
        if k > 0 {
            push_colon(&mut s);
        }
        let g = port_from_be(addr[2 * k], addr[2 * k + 1]);
        let h = hex_string(g);
        s.append(h.as_str());
        k = k + 1;
    }
    proof { reveal_strlit("]:"); }
    s.append("]:");
    push_decimal(&mut s, port);
    s
}

/// `host:port` for a domain target, given the text made of its name.
pub fn domain_target_text(host: &str, port: u16) -> (s: String)
    ensures
        s@ == host_port_text(host@, port),
{
    let mut s = String::new();
    s.append(host);
    push_colon(&mut s);
    push_decimal(&mut s, port);
    s
}

impl TargetAddr {
    /// The text a TCP connect is given for this target: `a.b.c.d:port`,
    /// `name:port` (the name decoded leniently as UTF-8) or `[g0:...:g7]:port`.
    pub fn to_address_string(&self) -> (s: String)
        ensures
            s@ == target_text(self@),
            self@ matches SpecTarget::Domain(name, port) ==> ((forall|i: int|
                0 <= i < name.len() ==> name[i] < 128) ==> s@ == host_port_text(
                name.map_values(|b: u8| b as char),
                port,
            )),
    {
        match self {
            TargetAddr::Ipv4 { ipv4, port } => ipv4_target_text(ipv4, *port),
            TargetAddr::Domain { name, port } => {
                let host = lossy_text(name.as_slice());
                domain_target_text(host.as_str(), *port)
            },
            TargetAddr::Ipv6 { ipv6, port } => ipv6_target_text(ipv6, *port),
        }
    }
}

/// The local address of an established connection, as the success reply
/// reports it.
pub enum BindAddr {
    V4 { ipv4: [u8; 4], port: u16 },
    V6 { ipv6: [u8; 16], port: u16 },
}

impl BindAddr {
    /// The address part of a reply: type byte, address bytes, big-endian port.
    pub open spec fn encoded(&self) -> Seq<u8> {
        match self {
            BindAddr::V4 { ipv4, port } => seq![IPV4_ADDRESS] + ipv4@ + port_bytes(*port),
            BindAddr::V6 { ipv6, port } => seq![IPV6_ADDRESS] + ipv6@ + port_bytes(*port),
        }
    }
}

} // verus!
