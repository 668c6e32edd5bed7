//! The bytes the server writes back to the client.

use vstd::prelude::*;
use crate::protocol::{SOCKS_VERSION, IPV4_ADDRESS, IPV6_ADDRESS};
use crate::address::{BindAddr, port_bytes, be16};

verus! {

/// The method selection reply: version and the chosen method.
pub open spec fn method_reply_bytes(method: u8) -> Seq<u8> {
    seq![SOCKS_VERSION, method]
}

/// A failure reply as the server sends it: version, reply code, reserved
/// byte, and an all-zero IPv4 address and port (ten bytes in all).
pub open spec fn failure_reply_bytes(code: u8) -> Seq<u8> {
    seq![SOCKS_VERSION, code, 0u8, IPV4_ADDRESS, 0u8, 0u8, 0u8, 0u8, 0u8, 0u8]
}

/// A reply that reports `addr`: version, status, reserved byte, then the
/// address type, address bytes and big-endian port.
pub open spec fn response_bytes(status: u8, addr: BindAddr) -> Seq<u8> {
    seq![SOCKS_VERSION, status, 0u8] + addr.encoded()
}

/// The number of address bytes that follow a reply's header, by address type.
pub open spec fn reply_address_len(atyp: u8) -> nat {
    if atyp == IPV4_ADDRESS {
        4
    } else if atyp == IPV6_ADDRESS {
        16
    } else {
        0
    }
}

/// What a client reads from a reply: it reads the four header bytes, then
/// address and port as the address type says. The result is the status, the
/// address bytes and the port, where the reply holds exactly these.
pub open spec fn read_reply(r: Seq<u8>) -> Option<(u8, Seq<u8>, u16)> {
    if r.len() >= 4 && r[0] == SOCKS_VERSION && reply_address_len(r[3]) > 0 && r.len() == 4
        + reply_address_len(r[3]) + 2 {
        let n = reply_address_len(r[3]) as int;
        Some((r[1], r.subrange(4, 4 + n), be16(r[4 + n], r[5 + n])))
    } else {
        None
    }
}

/// The address bytes and port of a bound address.
pub open spec fn bind_parts(addr: BindAddr) -> (Seq<u8>, u16) {
    match addr {
        BindAddr::V4 { ipv4, port } => (ipv4@, port),
        BindAddr::V6 { ipv6, port } => (ipv6@, port),
    }
}

/// The method selection reply `[5, method]`.
pub fn method_reply(method: u8) -> (r: Vec<u8>)
    ensures
        r@ == method_reply_bytes(method),
{
    let mut r: Vec<u8> = Vec::new();
    r.push(SOCKS_VERSION);
    r.push(method);
    r
}

/// The ten-byte failure reply with reply code `code`.
pub fn failure_reply(code: u8) -> (r: Vec<u8>)
    ensures
        r@ == failure_reply_bytes(code),
        r@.len() == 10,
{
    let mut r: Vec<u8> = Vec::new();
    r.push(SOCKS_VERSION);
    r.push(code);
    r.push(0);
    r.push(IPV4_ADDRESS);
    r.push(0);
    r.push(0);
    r.push(0);
    r.push(0);
    r.push(0);
    r.push(0);
    r
}

/// Appends the two big-endian bytes of `port` to `r`.
fn push_port(r: &mut Vec<u8>, port: u16)
    ensures
        final(r)@ == old(r)@ + port_bytes(port),
{
    r.push((port / 256) as u8);
    r.push((port % 256) as u8);
}

/// Appends all bytes of `bytes` to `r`.
fn push_all(r: &mut Vec<u8>, bytes: &[u8])
    ensures
        final(r)@ == old(r)@ + bytes@,
{
    let ghost start = r@;
    let mut i: usize = 0;
    while i < bytes.len()
        invariant
            i <= bytes@.len(),
            r@ == start + bytes@.take(i as int),
        decreases bytes@.len() - i,
    {
        r.push(bytes[i]);
        i = i + 1;
        assert(bytes@.take(i as int) =~= bytes@.take((i - 1) as int).push(bytes@[i - 1]));
    }
    assert(bytes@.take(i as int) =~= bytes@);
}

/// The reply that reports `addr` with `status`: ten bytes for an IPv4
/// address, twenty-two for an IPv6 one.
pub fn create_response(status: u8, addr: &BindAddr) -> (r: Vec<u8>)
    ensures
        r@ == response_bytes(status, *addr),
        r@.len() == match addr {
            BindAddr::V4 { .. } => 10int,
            BindAddr::V6 { .. } => 22int,
        },
        read_reply(r@) == Some((status, bind_parts(*addr).0, bind_parts(*addr).1)),
{
    let mut r: Vec<u8> = Vec::new();
    r.push(SOCKS_VERSION);
    r.push(status);
    r.push(0);
    match addr {
        BindAddr::V4 { ipv4, port } => {
            r.push(IPV4_ADDRESS);
            push_all(&mut r, ipv4.as_slice());
            push_port(&mut r, *port);
            proof {
                crate::laws::lemma_reply_reads_back(status, *addr);
            }
        },
        BindAddr::V6 { ipv6, port } => {
            r.push(IPV6_ADDRESS);
            push_all(&mut r, ipv6.as_slice());
            push_port(&mut r, *port);
            proof {
                crate::laws::lemma_reply_reads_back(status, *addr);
            }
        },
    }
    r
}

} // verus!
