//! SOCKS5 protocol constants.

use vstd::prelude::*;

verus! {

/// The SOCKS protocol version this server speaks.
pub const SOCKS_VERSION: u8 = 5;

/// Authentication method: no authentication required.
pub const NO_AUTH: u8 = 0;

/// Authentication method: GSSAPI.
pub const GSSAPI: u8 = 1;

/// Authentication method: username and password.
pub const USERNAME_PASSWORD: u8 = 2;

/// Method selection reply: none of the offered methods is acceptable.
pub const AUTH_METHOD_NOT_ACCEPTABLE: u8 = 0xFF;

/// Command: open a TCP connection to the target.
pub const CONNECT: u8 = 1;

/// Command: bind a listening port.
pub const BIND: u8 = 2;

/// Command: UDP association.
pub const UDP_ASSOCIATE: u8 = 3;

/// Address type: four-byte IPv4 address.
pub const IPV4_ADDRESS: u8 = 1;

/// Address type: length-prefixed domain name.
pub const DOMAIN_NAME: u8 = 3;

/// Address type: sixteen-byte IPv6 address.
pub const IPV6_ADDRESS: u8 = 4;

/// Reply code: request granted.
pub const SUCCEEDED: u8 = 0;

/// Reply code: general SOCKS server failure.
pub const GENERAL_FAILURE: u8 = 1;

/// Reply code: connection not allowed by ruleset.
pub const CONNECTION_NOT_ALLOWED: u8 = 2;

/// Reply code: network unreachable.
pub const NETWORK_UNREACHABLE: u8 = 3;

/// Reply code: host unreachable.
pub const HOST_UNREACHABLE: u8 = 4;

/// Reply code: connection refused.
pub const CONNECTION_REFUSED: u8 = 5;

/// Reply code: TTL expired.
pub const TTL_EXPIRED: u8 = 6;

/// Reply code: command not supported.
pub const COMMAND_NOT_SUPPORTED: u8 = 7;

/// Reply code: address type not supported.
pub const ADDRESS_TYPE_NOT_SUPPORTED: u8 = 8;

} // verus!
