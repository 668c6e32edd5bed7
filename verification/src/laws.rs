//! Laws of the negotiation: what the server does with whole client byte
//! streams, and what a client reads back from the server's replies.

use vstd::prelude::*;
use crate::protocol::{
    SOCKS_VERSION, NO_AUTH, AUTH_METHOD_NOT_ACCEPTABLE, CONNECT, IPV4_ADDRESS, DOMAIN_NAME,
    IPV6_ADDRESS, SUCCEEDED, HOST_UNREACHABLE,
};
use crate::address::{
    SpecTarget, BindAddr, be16, port_bytes, utf8_lossy, target_text, host_port_text,
    ipv6_group, ipv6_groups,
};
use crate::text::{decimal, hex, reads_as, lemma_decimal_reads_back, lemma_hex_reads_back};
use crate::reply::{method_reply_bytes, failure_reply_bytes, response_bytes, read_reply, bind_parts};
use crate::session::{
    Stage, SpecAction, Socks5Error, bytes_wanted, next_on_bytes, next_on_connect, error_text,
};

verus! {

/// A measure that every step on bytes lowers.
pub open spec fn rank(stage: Stage) -> nat {
    match stage {
        Stage::Greeting => 6,
        Stage::Methods { .. } => 5,
        Stage::Request => 4,
        Stage::DomainLength => 3,
        Stage::Ipv4Address => 2,
        Stage::DomainName { .. } => 2,
        Stage::Ipv6Address => 2,
        Stage::Connecting => 1,
        _ => 0,
    }
}

/// The bytes a step writes.
pub open spec fn written(reply: Option<Seq<u8>>) -> Seq<u8> {
    match reply {
        Some(r) => r,
        None => seq![],
    }
}

/// Drives a session from `stage` over a client's byte stream, one read after
/// another, until it asks for something other than bytes or the stream runs
/// short. The result is the stage reached, everything written, the last
/// action asked for (`None` where `stage` waits for no bytes) and the bytes
/// left unread.
pub open spec fn run(stage: Stage, stream: Seq<u8>) -> (Stage, Seq<u8>, Option<SpecAction>, Seq<u8>)
    decreases rank(stage),
{
    match bytes_wanted(stage) {
        Some(n) => if n <= stream.len() {
            let (next, s) = next_on_bytes(stage, stream.take(n as int));
            match s.action {
                SpecAction::Read(_) => {
                    let (last, w, a, rest) = run(next, stream.skip(n as int));
                    (last, written(s.reply) + w, a, rest)
                },
                _ => (next, written(s.reply), Some(s.action), stream.skip(n as int)),
            }
        } else {
            (stage, seq![], Some(SpecAction::Read(n)), stream)
        },
        None => (stage, seq![], None, stream),
    }
}

/// A client's greeting: version, number of methods, the methods.
pub open spec fn greeting_bytes(methods: Seq<u8>) -> Seq<u8> {
    seq![SOCKS_VERSION, methods.len() as u8] + methods
}

/// A client's request: version, command, reserved byte (any value), then the address
/// type, address and big-endian port of the target.
pub open spec fn request_bytes(command: u8, reserved: u8, t: SpecTarget) -> Seq<u8> {
    seq![SOCKS_VERSION, command, reserved] + match t {
        SpecTarget::Ipv4(a, p) => seq![IPV4_ADDRESS] + a + port_bytes(p),
        SpecTarget::Domain(n, p) => seq![DOMAIN_NAME, n.len() as u8] + n + port_bytes(p),
        SpecTarget::Ipv6(a, p) => seq![IPV6_ADDRESS] + a + port_bytes(p),
    }
}

/// A target that a request can carry: four or sixteen address bytes, or a
/// domain name of at most 255 bytes.
pub open spec fn encodable(t: SpecTarget) -> bool {
    match t {
        SpecTarget::Ipv4(a, _) => a.len() == 4,
        SpecTarget::Domain(n, _) => n.len() <= 255,
        SpecTarget::Ipv6(a, _) => a.len() == 16,
    }
}

/// Two port bytes are high byte then low byte: the first times 256 plus the
/// second is the port; and two bytes read as a port are read the same way.
pub proof fn lemma_port_roundtrip(port: u16)
    ensures
        port_bytes(port).len() == 2,
        port_bytes(port)[0] as int * 256 + port_bytes(port)[1] as int == port as int,
        be16(port_bytes(port)[0], port_bytes(port)[1]) == port,
        forall|hi: u8, lo: u8| #[trigger] be16(hi, lo) as int == hi as int * 256 + lo as int,
{
    assert((port / 256) as u8 as nat * 256 + (port % 256) as u8 as nat == port) by (nonlinear_arith);
}

/// The common frame of the three address forms: the session, waiting for a
/// request, reads the four header bytes and then the address part.
proof fn lemma_request_frame(t: SpecTarget, reserved: u8, rest: Seq<u8>, atyp: u8, addr_stage: Stage)
    requires
        encodable(t),
        atyp == match t {
            SpecTarget::Ipv4(..) => IPV4_ADDRESS,
            SpecTarget::Domain(..) => DOMAIN_NAME,
            SpecTarget::Ipv6(..) => IPV6_ADDRESS,
        },
        addr_stage == match t {
            SpecTarget::Ipv4(..) => Stage::Ipv4Address,
            SpecTarget::Domain(..) => Stage::DomainLength,
            SpecTarget::Ipv6(..) => Stage::Ipv6Address,
        },
    ensures
        run(Stage::Request, request_bytes(CONNECT, reserved, t) + rest) == run(
            addr_stage,
            (request_bytes(CONNECT, reserved, t) + rest).skip(4),
        ),
{
    let s = request_bytes(CONNECT, reserved, t) + rest;
    assert(s.take(4) =~= seq![SOCKS_VERSION, CONNECT, reserved, atyp]);
    let r = run(addr_stage, s.skip(4));
    assert(seq![] + r.1 =~= r.1);
}

/// An IPv4 address and port, read by a session that waits for them.
proof fn lemma_ipv4_part(a: Seq<u8>, p: u16, rest: Seq<u8>)
    requires
        a.len() == 4,
    ensures
        run(Stage::Ipv4Address, a + port_bytes(p) + rest) == (
            Stage::Connecting,
            Seq::<u8>::empty(),
            Some(SpecAction::Connect(SpecTarget::Ipv4(a, p))),
            rest,
        ),
{
    lemma_port_roundtrip(p);
    let s = a + port_bytes(p) + rest;
    assert(s.take(6).take(4) =~= a);
    assert(s.skip(6) =~= rest);
}

/// An IPv6 address and port, read by a session that waits for them.
proof fn lemma_ipv6_part(a: Seq<u8>, p: u16, rest: Seq<u8>)
    requires
        a.len() == 16,
    ensures
        run(Stage::Ipv6Address, a + port_bytes(p) + rest) == (
            Stage::Connecting,
            Seq::<u8>::empty(),
            Some(SpecAction::Connect(SpecTarget::Ipv6(a, p))),
            rest,
        ),
{
    lemma_port_roundtrip(p);
    let s = a + port_bytes(p) + rest;
    assert(s.take(18).take(16) =~= a);
    assert(s.skip(18) =~= rest);
}

/// A length-prefixed domain name and port, read by a session that waits for
/// the length.
proof fn lemma_domain_part(n: Seq<u8>, p: u16, rest: Seq<u8>)
    requires
        n.len() <= 255,
    ensures
        run(Stage::DomainLength, seq![n.len() as u8] + n + port_bytes(p) + rest) == (
            Stage::Connecting,
            Seq::<u8>::empty(),
            Some(SpecAction::Connect(SpecTarget::Domain(n, p))),
            rest,
        ),
{
    lemma_port_roundtrip(p);
    let l = n.len() as u8;
    let s = seq![l] + n + port_bytes(p) + rest;
    assert(s.take(1) =~= seq![l]);
    let s1 = s.skip(1);
    assert(s1 =~= n + port_bytes(p) + rest);
    assert(s1.take(n.len() + 2int).take(n.len() as int) =~= n);
    assert(s1.skip(n.len() + 2int) =~= rest);
    let r = run(Stage::DomainName { len: l }, s1);
    assert(seq![] + r.1 =~= r.1);
}

/// A well-formed CONNECT request, followed by any bytes, makes the session
/// ask to connect to exactly the target the request names, writing nothing
/// and leaving the following bytes unread.
pub proof fn lemma_request_names_target(t: SpecTarget, reserved: u8, rest: Seq<u8>)
    requires
        encodable(t),
    ensures
        run(Stage::Request, request_bytes(CONNECT, reserved, t) + rest) == (
            Stage::Connecting,
            Seq::<u8>::empty(),
            Some(SpecAction::Connect(t)),
            rest,
        ),
{
    let s = request_bytes(CONNECT, reserved, t) + rest;
    match t {
        SpecTarget::Ipv4(a, p) => {
            lemma_request_frame(t, reserved, rest, IPV4_ADDRESS, Stage::Ipv4Address);
            assert(s.skip(4) =~= a + port_bytes(p) + rest);
            lemma_ipv4_part(a, p, rest);
        },
        SpecTarget::Domain(n, p) => {
            lemma_request_frame(t, reserved, rest, DOMAIN_NAME, Stage::DomainLength);
            assert(s.skip(4) =~= seq![n.len() as u8] + n + port_bytes(p) + rest);
            lemma_domain_part(n, p, rest);
        },
        SpecTarget::Ipv6(a, p) => {
            lemma_request_frame(t, reserved, rest, IPV6_ADDRESS, Stage::Ipv6Address);
            assert(s.skip(4) =~= a + port_bytes(p) + rest);
            lemma_ipv6_part(a, p, rest);
        },
    }
}

/// After a greeting that offers the method needing no authentication, the
/// session answers `[5, 0]` and goes on to read a request from the bytes
/// that follow.
pub proof fn lemma_greeting_accepted(methods: Seq<u8>, tail: Seq<u8>)
    requires
        methods.len() <= 255,
        methods.contains(NO_AUTH),
    ensures
        run(Stage::Greeting, greeting_bytes(methods) + tail) == {
            let r = run(Stage::Request, tail);
            (r.0, seq![5u8, 0u8] + r.1, r.2, r.3)
        },
{
    let m = methods.len() as u8;
    let s = greeting_bytes(methods) + tail;
    assert(s.take(2) =~= seq![SOCKS_VERSION, m]);
    let s2 = s.skip(2);
    assert(s2.take(m as int) =~= methods);
    assert(s2.skip(m as int) =~= tail);
    let r = run(Stage::Request, tail);
    assert(next_on_bytes(Stage::Methods { count: m }, s2.take(m as int)).0 == Stage::Request);
    assert(run(Stage::Methods { count: m }, s2) == (r.0, method_reply_bytes(NO_AUTH) + r.1, r.2, r.3));
    assert(seq![] + (method_reply_bytes(NO_AUTH) + r.1) =~= method_reply_bytes(NO_AUTH) + r.1);
}

/// A greeting that does not offer the method needing no authentication is
/// answered `[5, 0xFF]` and ends the session; nothing after it is read.
pub proof fn lemma_greeting_refused(methods: Seq<u8>, tail: Seq<u8>)
    requires
        methods.len() <= 255,
        !methods.contains(NO_AUTH),
    ensures
        run(Stage::Greeting, greeting_bytes(methods) + tail) == (
            Stage::Closed,
            seq![5u8, 0xFFu8],
            Some(SpecAction::Close(Socks5Error::NoAcceptableAuthMethod)),
            tail,
        ),
{
    let m = methods.len() as u8;
    let s = greeting_bytes(methods) + tail;
    assert(s.take(2) =~= seq![SOCKS_VERSION, m]);
    let s2 = s.skip(2);
    assert(s2.take(m as int) =~= methods);
    assert(s2.skip(m as int) =~= tail);
    assert(run(Stage::Methods { count: m }, s2) == (
        Stage::Closed,
        method_reply_bytes(AUTH_METHOD_NOT_ACCEPTABLE),
        Some(SpecAction::Close(Socks5Error::NoAcceptableAuthMethod)),
        tail,
    ));
    assert(seq![] + method_reply_bytes(AUTH_METHOD_NOT_ACCEPTABLE) =~= method_reply_bytes(
        AUTH_METHOD_NOT_ACCEPTABLE,
    ));
}

/// A greeting whose version byte is not 5 ends the session without a reply;
/// nothing after the two greeting bytes is read.
pub proof fn lemma_greeting_wrong_version(version: u8, count: u8, tail: Seq<u8>)
    requires
        version != SOCKS_VERSION,
    ensures
        run(Stage::Greeting, seq![version, count] + tail) == (
            Stage::Closed,
            Seq::<u8>::empty(),
            Some(SpecAction::Close(Socks5Error::UnsupportedVersion(version))),
            tail,
        ),
{
    let s = seq![version, count] + tail;
    assert(s.take(2) =~= seq![version, count]);
    assert(s.skip(2) =~= tail);
}

/// The whole negotiation of a CONNECT: a client that offers the method
/// needing no authentication and then asks for target `t` is answered
/// `[5, 0]`, and the session asks to connect to exactly `t`; the bytes the
/// client sends after its request are left for the relay.
pub proof fn lemma_connect_negotiation(methods: Seq<u8>, reserved: u8, t: SpecTarget, rest: Seq<u8>)
    requires
        methods.len() <= 255,
        methods.contains(NO_AUTH),
        encodable(t),
    ensures
        run(Stage::Greeting, greeting_bytes(methods) + request_bytes(CONNECT, reserved, t) + rest) == (
            Stage::Connecting,
            seq![5u8, 0u8],
            Some(SpecAction::Connect(t)),
            rest,
        ),
{
    let tail = request_bytes(CONNECT, reserved, t) + rest;
    assert(greeting_bytes(methods) + request_bytes(CONNECT, reserved, t) + rest =~= greeting_bytes(methods)
        + tail);
    lemma_greeting_accepted(methods, tail);
    lemma_request_names_target(t, reserved, rest);
    assert(method_reply_bytes(NO_AUTH) + Seq::<u8>::empty() =~= method_reply_bytes(NO_AUTH));
}

/// A request whose version byte is not 5 ends the session without a reply.
pub proof fn lemma_request_wrong_version(version: u8, command: u8, reserved: u8, atyp: u8, rest: Seq<u8>)
    requires
        version != SOCKS_VERSION,
    ensures
        run(Stage::Request, seq![version, command, reserved, atyp] + rest) == (
            Stage::Closed,
            Seq::<u8>::empty(),
            Some(SpecAction::Close(Socks5Error::UnexpectedVersion(version))),
            rest,
        ),
{
    let s = seq![version, command, reserved, atyp] + rest;
    assert(s.take(4) =~= seq![version, command, reserved, atyp]);
    assert(s.skip(4) =~= rest);
}

/// A request for any command but CONNECT is answered with the failure reply
/// "command not supported" and ends the session.
pub proof fn lemma_request_other_command(command: u8, reserved: u8, atyp: u8, rest: Seq<u8>)
    requires
        command != CONNECT,
    ensures
        run(Stage::Request, seq![SOCKS_VERSION, command, reserved, atyp] + rest) == (
            Stage::Closed,
            seq![5u8, 7u8, 0u8, 1u8, 0u8, 0u8, 0u8, 0u8, 0u8, 0u8],
            Some(SpecAction::Close(Socks5Error::UnsupportedCommand(command))),
            rest,
        ),
{
    let s = seq![SOCKS_VERSION, command, reserved, atyp] + rest;
    assert(s.take(4) =~= seq![SOCKS_VERSION, command, reserved, atyp]);
    assert(s.skip(4) =~= rest);
}

/// A CONNECT request with an address type other than IPv4, domain name or
/// IPv6 is answered with the failure reply "address type not supported" and
/// ends the session.
pub proof fn lemma_request_other_address_type(reserved: u8, atyp: u8, rest: Seq<u8>)
    requires
        atyp != IPV4_ADDRESS,
        atyp != DOMAIN_NAME,
        atyp != IPV6_ADDRESS,
    ensures
        run(Stage::Request, seq![SOCKS_VERSION, CONNECT, reserved, atyp] + rest) == (
            Stage::Closed,
            seq![5u8, 8u8, 0u8, 1u8, 0u8, 0u8, 0u8, 0u8, 0u8, 0u8],
            Some(SpecAction::Close(Socks5Error::UnsupportedAddressType(atyp))),
            rest,
        ),
{
    let s = seq![SOCKS_VERSION, CONNECT, reserved, atyp] + rest;
    assert(s.take(4) =~= seq![SOCKS_VERSION, CONNECT, reserved, atyp]);
    assert(s.skip(4) =~= rest);
}

/// A client that reads a reply as the header and address type say reads
/// back exactly the status, address and port the server put in it.
pub proof fn lemma_reply_reads_back(status: u8, addr: BindAddr)
    ensures
        read_reply(response_bytes(status, addr)) == Some(
            (status, bind_parts(addr).0, bind_parts(addr).1),
        ),
        response_bytes(status, addr)[0] == 5,
        response_bytes(status, addr)[2] == 0,
{
    let r = response_bytes(status, addr);
    match addr {
        BindAddr::V4 { ipv4, port } => {
            lemma_port_roundtrip(port);
            assert(r.subrange(4, 8) =~= ipv4@);
        },
        BindAddr::V6 { ipv6, port } => {
            lemma_port_roundtrip(port);
            assert(r.subrange(4, 20) =~= ipv6@);
        },
    }
}

/// A failure reply reads back as its code with an all-zero IPv4 address and
/// port zero.
pub proof fn lemma_failure_reply_reads_back(code: u8)
    ensures
        read_reply(failure_reply_bytes(code)) == Some((code, seq![0u8, 0u8, 0u8, 0u8], 0u16)),
        failure_reply_bytes(code) == seq![5u8, code, 0u8, 1u8, 0u8, 0u8, 0u8, 0u8, 0u8, 0u8],
{
    let r = failure_reply_bytes(code);
    assert(r.subrange(4, 8) =~= seq![0u8, 0u8, 0u8, 0u8]);
}

/// The decimal text of a port: nonempty digits without a leading zero that
/// read back as the port.
proof fn lemma_port_text(p: u16)
    ensures
        reads_as(decimal(p as nat), 10, p as int),
{
    lemma_decimal_reads_back(p as nat);
}

/// `host:port` text is the host, a colon, and then digits that read back as
/// exactly the port.
pub proof fn lemma_host_port_text_reads_back(host: Seq<char>, p: u16)
    ensures
        exists|tp: Seq<char>|
            #[trigger] reads_as(tp, 10, p as int) && host_port_text(host, p) == host + seq![':']
                + tp,
{
    lemma_port_text(p);
    assert(reads_as(decimal(p as nat), 10, p as int));
}

/// The text of a domain target is the leniently decoded name, a colon, and
/// digits that read back as exactly the target's port.
pub proof fn lemma_domain_text_reads_back(name: Seq<u8>, p: u16)
    ensures
        exists|tp: Seq<char>|
            #[trigger] reads_as(tp, 10, p as int) && target_text(SpecTarget::Domain(name, p))
                == utf8_lossy(name) + seq![':'] + tp,
{
    lemma_host_port_text_reads_back(utf8_lossy(name), p);
}

/// The text of an IPv4 target is four dot-separated decimal fields and a
/// port after a colon; each field reads back as the address byte in its
/// place and the port field as the port. (Digits hold no `'.'` or `':'`, so
/// the fields are those between the separators.)
pub proof fn lemma_ipv4_text_reads_back(a: Seq<u8>, p: u16)
    requires
        a.len() == 4,
    ensures
        exists|t0: Seq<char>, t1: Seq<char>, t2: Seq<char>, t3: Seq<char>, tp: Seq<char>|
            #![trigger reads_as(t0, 10, a[0] as int), reads_as(t1, 10, a[1] as int), reads_as(t2, 10, a[2] as int), reads_as(t3, 10, a[3] as int), reads_as(tp, 10, p as int)]
            {
                &&& reads_as(t0, 10, a[0] as int)
                &&& reads_as(t1, 10, a[1] as int)
                &&& reads_as(t2, 10, a[2] as int)
                &&& reads_as(t3, 10, a[3] as int)
                &&& reads_as(tp, 10, p as int)
                &&& target_text(SpecTarget::Ipv4(a, p)) == t0 + seq!['.'] + t1 + seq!['.'] + t2 + seq!['.'] + t3
                    + seq![':'] + tp
            },
{
    lemma_decimal_reads_back(a[0] as nat);
    lemma_decimal_reads_back(a[1] as nat);
    lemma_decimal_reads_back(a[2] as nat);
    lemma_decimal_reads_back(a[3] as nat);
    lemma_port_text(p);
    let t0 = decimal(a[0] as nat);
    let t1 = decimal(a[1] as nat);
    let t2 = decimal(a[2] as nat);
    let t3 = decimal(a[3] as nat);
    let tp = decimal(p as nat);
    assert(reads_as(t0, 10, a[0] as int));
    assert(reads_as(t1, 10, a[1] as int));
    assert(reads_as(t2, 10, a[2] as int));
    assert(reads_as(t3, 10, a[3] as int));
    assert(reads_as(tp, 10, p as int));
}

/// The 16-bit value of group `k` of an IPv6 address: its high byte times 256
/// plus its low byte.
pub open spec fn group_value(a: Seq<u8>, k: int) -> int {
    a[2 * k] as int * 256 + a[2 * k + 1] as int
}

/// Fields joined by `':'`.
pub open spec fn colon_joined(fields: Seq<Seq<char>>) -> Seq<char>
    decreases fields.len(),
{
    if fields.len() == 0 {
        seq![]
    } else if fields.len() == 1 {
        fields[0]
    } else {
        colon_joined(fields.drop_last()) + seq![':'] + fields.last()
    }
}

/// The hexadecimal fields of the first `k` groups.
spec fn hex_fields(a: Seq<u8>, k: nat) -> Seq<Seq<char>> {
    Seq::new(k, |i: int| hex(ipv6_group(a, i) as nat))
}

proof fn lemma_groups_are_joined_fields(a: Seq<u8>, k: nat)
    ensures
        ipv6_groups(a, k) == colon_joined(hex_fields(a, k)),
    decreases k,
{
    if k > 1 {
        lemma_groups_are_joined_fields(a, (k - 1) as nat);
        assert(hex_fields(a, k).drop_last() =~= hex_fields(a, (k - 1) as nat));
    } else if k == 1 {
        assert(colon_joined(hex_fields(a, k)) == hex_fields(a, k)[0]);
    } else {
        assert(hex_fields(a, k).len() == 0);
    }
}

/// The text of an IPv6 target is, between brackets, eight colon-joined
/// hexadecimal fields, then a colon and the port; field `k` reads back (in
/// base 16) as address bytes `2k` and `2k+1` taken big-endian, and the port
/// field reads back as the port. (Digits hold no `':'`, so the fields are
/// those between the separators.)
pub proof fn lemma_ipv6_text_reads_back(a: Seq<u8>, p: u16)
    requires
        a.len() == 16,
    ensures
        exists|fields: Seq<Seq<char>>, tp: Seq<char>|
            #![trigger colon_joined(fields), reads_as(tp, 10, p as int)]
            {
                &&& fields.len() == 8
                &&& forall|k: int| 0 <= k < 8 ==> reads_as(#[trigger] fields[k], 16, group_value(a, k))
                &&& reads_as(tp, 10, p as int)
                &&& target_text(SpecTarget::Ipv6(a, p)) == seq!['['] + colon_joined(fields) + seq![']', ':'] + tp
            },
{
    let fields = hex_fields(a, 8);
    assert forall|k: int| 0 <= k < 8 implies reads_as(#[trigger] fields[k], 16, group_value(a, k)) by {
        assert(a[2 * k] as int * 256 + a[2 * k + 1] as int <= 65535);
        assert(ipv6_group(a, k) as int == group_value(a, k));
        lemma_hex_reads_back(ipv6_group(a, k) as nat);
    }
    lemma_groups_are_joined_fields(a, 8);
    lemma_port_text(p);
    let tp = decimal(p as nat);
    assert(reads_as(tp, 10, p as int));
    assert(target_text(SpecTarget::Ipv6(a, p)) == seq!['['] + colon_joined(fields) + seq![']', ':']
        + tp);
}

/// Every step that asks for more bytes asks for exactly as many as the
/// session then waits for, so a caller that reads what a step says stays in
/// step with the session.
pub proof fn lemma_reads_stay_in_step(stage: Stage, input: Seq<u8>)
    requires
        bytes_wanted(stage) == Some(input.len()),
    ensures
        next_on_bytes(stage, input).1.action matches SpecAction::Read(n) ==> bytes_wanted(
            next_on_bytes(stage, input).0,
        ) == Some(n),
{
}

/// After a domain length byte `len`, the session asks for the `len` bytes of
/// the name and the two bytes of the port.
pub proof fn lemma_domain_length_read(len: u8)
    ensures
        next_on_bytes(Stage::DomainLength, seq![len]).1.action == SpecAction::Read(len as nat + 2),
        bytes_wanted(next_on_bytes(Stage::DomainLength, seq![len]).0) == Some(len as nat + 2),
{
}

/// A successful connection is answered with a reply that a client reads
/// back as SUCCEEDED with exactly the bound address and port, and the
/// session starts relaying.
pub proof fn lemma_connect_reply_reads_back(addr: BindAddr)
    ensures
        next_on_connect(Some(addr)).1.reply matches Some(r) && read_reply(r) == Some(
            (SUCCEEDED, bind_parts(addr).0, bind_parts(addr).1),
        ),
        next_on_connect(Some(addr)).1.action == SpecAction::Relay,
{
    lemma_reply_reads_back(SUCCEEDED, addr);
}

/// A failed connection is answered with a reply that a client reads back as
/// HOST_UNREACHABLE with an all-zero IPv4 address and port, and the session
/// closes.
pub proof fn lemma_connect_failure_reads_back()
    ensures
        next_on_connect(None).1.reply matches Some(r) && read_reply(r) == Some(
            (HOST_UNREACHABLE, seq![0u8, 0u8, 0u8, 0u8], 0u16),
        ),
        next_on_connect(None).1.action == SpecAction::Close(Socks5Error::ConnectFailed),
{
    lemma_failure_reply_reads_back(HOST_UNREACHABLE);
}

/// The text of an error that carries a byte is its fixed description
/// followed by digits that read back as that byte.
pub proof fn lemma_error_text_reads_back(e: Socks5Error)
    ensures
        e matches Socks5Error::UnsupportedVersion(v) ==> exists|t: Seq<char>|
            #[trigger] reads_as(t, 10, v as int) && error_text(e) == "Unsupported SOCKS version: "@
                + t,
        e matches Socks5Error::UnexpectedVersion(v) ==> exists|t: Seq<char>|
            #[trigger] reads_as(t, 10, v as int) && error_text(e) == "Unexpected SOCKS version: "@
                + t,
        e matches Socks5Error::UnsupportedCommand(c) ==> exists|t: Seq<char>|
            #[trigger] reads_as(t, 10, c as int) && error_text(e) == "Unsupported command: "@ + t,
        e matches Socks5Error::UnsupportedAddressType(a) ==> exists|t: Seq<char>|
            #[trigger] reads_as(t, 10, a as int) && error_text(e) == "Unsupported address type: "@
                + t,
{
    match e {
        Socks5Error::UnsupportedVersion(v) => {
            lemma_decimal_reads_back(v as nat);
            assert(reads_as(decimal(v as nat), 10, v as int));
        },
        Socks5Error::UnexpectedVersion(v) => {
            lemma_decimal_reads_back(v as nat);
            assert(reads_as(decimal(v as nat), 10, v as int));
        },
        Socks5Error::UnsupportedCommand(c) => {
            lemma_decimal_reads_back(c as nat);
            assert(reads_as(decimal(c as nat), 10, c as int));
        },
        Socks5Error::UnsupportedAddressType(a) => {
            lemma_decimal_reads_back(a as nat);
            assert(reads_as(decimal(a as nat), 10, a as int));
        },
        _ => {},
    }
}

} // verus!
