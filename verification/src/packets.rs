//! Bodies of the packets this client sends: handshake, status request and
//! login start. Framing (length prefix, packet id, optional compression) is
//! the transport's business; these are the bytes inside the frame.
use vstd::prelude::*;

use crate::codec::{be16, lp_bytes, varint_bytes, write_bytes, write_lp_bytes, write_u16_be,
    write_varint};

verus! {

/// The protocol version pinned at build time.
pub const PROTOCOL_VERSION: u16 = 763;

/// The handshake, status-request and login-start packets all carry this id.
pub const HANDSHAKE_ID: u8 = 0x00;

/// Requested next state of a handshake: a status query.
pub const NEXT_STATE_STATUS: u8 = 1;

/// Requested next state of a handshake: a login.
pub const NEXT_STATE_LOGIN: u8 = 2;

/// Body of the handshake packet: protocol version, server address, server
/// port and the requested next state.
pub fn handshake_body(
    protocol_version: u16,
    server_address: &Vec<u8>,
    server_port: u16,
    next_state: u8,
) -> (body: Vec<u8>)
    requires
        server_address@.len() <= 0xffff_ffff,
    ensures
        body@ == varint_bytes(protocol_version as nat) + lp_bytes(server_address@) + be16(
            server_port,
        ) + varint_bytes(next_state as nat),
{
    let mut body: Vec<u8> = Vec::new();
    write_varint(&mut body, protocol_version as u32);
    write_lp_bytes(&mut body, server_address);
    write_u16_be(&mut body, server_port);
    write_varint(&mut body, next_state as u32);
    proof {
        assert(body@ =~= varint_bytes(protocol_version as nat) + lp_bytes(server_address@) + be16(
            server_port,
        ) + varint_bytes(next_state as nat));
    }
    body
}

/// Body of the status-request packet: empty.
pub fn status_request_body() -> (body: Vec<u8>)
    ensures
        body@.len() == 0,
{
    Vec::new()
}

/// Body of the login-start packet: the player name, then the 16 bytes of the
/// derived offline-mode UUID.
pub fn login_start_body(name: &Vec<u8>, uuid: &Vec<u8>) -> (body: Vec<u8>)
    requires
        name@.len() <= 0xffff_ffff,
        uuid@.len() == 16,
    ensures
        body@ == lp_bytes(name@) + uuid@,
{
    let mut body: Vec<u8> = Vec::new();
    write_lp_bytes(&mut body, name);
    write_bytes(&mut body, uuid);
    body
}

} // verus!
