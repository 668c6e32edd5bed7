//! The SOCKS5 (RFC 1928) handshake of a CONNECT proxy: the protocol's
//! constants, the server's side of the negotiation as a state machine over the
//! bytes a client sends, the replies the server writes, and the textual form
//! of a requested target address.

pub mod protocol;
pub mod text;
pub mod address;
pub mod reply;
pub mod session;
pub mod laws;
