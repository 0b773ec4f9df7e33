//! The typed packets this client sends and receives, and their field
//! encodings: strings are length-prefixed UTF-8 bytes, fixed-width
//! integers big-endian, identifiers and lengths variable-length integers.
//! Unrecognized inbound identifiers become an explicit `Unknown` variant
//! and are discarded, never rejected.

use vstd::prelude::*;
use crate::varint::{VarScan, varint_bytes, varint_scan, scan_varint, write_varint};
use crate::codec::{DecodeError, EncodeError, RawFrame, push_all};

verus! {

/// The protocol generation this client speaks in its handshake.
pub const PROTOCOL_VERSION: i32 = 763;

/// Identifier of the client-to-server handshake packet.
pub const HANDSHAKE_ID: u32 = 0x00;

/// Identifier of the client-to-server login-start packet.
pub const LOGIN_HELLO_ID: u32 = 0x00;

/// Identifier of the server's login-phase disconnect packet.
pub const LOGIN_DISCONNECT_ID: u32 = 0x00;

/// Identifier of the server's login-success packet.
pub const LOGIN_SUCCESS_ID: u32 = 0x02;

/// Identifier of the server's compression-announcement packet.
pub const LOGIN_COMPRESSION_ID: u32 = 0x03;

/// Identifier of the server's play-phase disconnect packet.
pub const PLAY_DISCONNECT_ID: u32 = 0x1a;

/// Identifier of the server's play-phase keep-alive ping.
pub const PLAY_KEEP_ALIVE_ID: u32 = 0x23;

/// Identifier of the client's play-phase keep-alive reply.
pub const KEEP_ALIVE_REPLY_ID: u32 = 0x12;

/// Declared bound of the handshake's server-address string, in bytes.
pub const MAX_SERVER_ADDRESS_LEN: usize = 255;

/// Declared bound of the login username, in bytes.
pub const MAX_USERNAME_LEN: usize = 16;

/// The conversation the handshake asks the server to switch to.
#[derive(Clone, Copy, Debug, PartialEq, Eq, Structural)]
pub enum NextState {
    Status,
    Login,
}

/// The wire code of the requested next state.
pub open spec fn next_state_code(n: NextState) -> u32 {
    match n {
        NextState::Status => 1,
        NextState::Login => 2,
    }
}

/// A protocol string: its byte length as a variable-length integer, then
/// the bytes themselves.
pub open spec fn proto_string(b: Seq<u8>) -> Seq<u8> {
    varint_bytes(b.len() as u32) + b
}

/// A big-endian 16-bit integer.
pub open spec fn u16_be(n: u16) -> Seq<u8> {
    seq![(n / 0x100) as u8, (n % 0x100) as u8]
}

/// A big-endian 64-bit integer.
pub open spec fn u64_be(n: u64) -> Seq<u8> {
    seq![
        (n / 0x100_0000_0000_0000) as u8,
        ((n / 0x1_0000_0000_0000) % 0x100) as u8,
        ((n / 0x100_0000_0000) % 0x100) as u8,
        ((n / 0x1_0000_0000) % 0x100) as u8,
        ((n / 0x100_0000) % 0x100) as u8,
        ((n / 0x1_0000) % 0x100) as u8,
        ((n / 0x100) % 0x100) as u8,
        (n % 0x100) as u8,
    ]
}

/// The value of 8 big-endian bytes.
pub open spec fn u64_be_val(s: Seq<u8>) -> u64
    recommends
        s.len() == 8,
{
    (s[0] * 0x100_0000_0000_0000 + s[1] * 0x1_0000_0000_0000 + s[2] * 0x100_0000_0000 + s[3]
        * 0x1_0000_0000 + s[4] * 0x100_0000 + s[5] * 0x1_0000 + s[6] * 0x100 + s[7]) as u64
}

/// Reading back the 8 big-endian bytes of `n` restores `n`.
pub proof fn lemma_u64_be_round_trip(n: u64)
    ensures
        u64_be_val(u64_be(n)) == n,
{
    assert(n == (n / 0x100_0000_0000_0000) * 0x100_0000_0000_0000 + ((n / 0x1_0000_0000_0000)
        % 0x100) * 0x1_0000_0000_0000 + ((n / 0x100_0000_0000) % 0x100) * 0x100_0000_0000 + ((n
        / 0x1_0000_0000) % 0x100) * 0x1_0000_0000 + ((n / 0x100_0000) % 0x100) * 0x100_0000 + ((n
        / 0x1_0000) % 0x100) * 0x1_0000 + ((n / 0x100) % 0x100) * 0x100 + n % 0x100)
        by (bit_vector);
}

/// The handshake packet's payload: identifier, protocol version, server
/// address, server port, requested next state.
pub open spec fn handshake_payload(pv: i32, addr: Seq<u8>, port: u16, next: NextState) -> Seq<u8> {
    varint_bytes(HANDSHAKE_ID) + varint_bytes(pv as u32) + proto_string(addr) + u16_be(port)
        + varint_bytes(next_state_code(next))
}

/// The login-start packet's payload: identifier, display name, and the
/// absent-profile marker (no pre-shared identity).
pub open spec fn login_hello_payload(name: Seq<u8>) -> Seq<u8> {
    varint_bytes(LOGIN_HELLO_ID) + proto_string(name) + seq![0u8]
}

/// The keep-alive reply's payload: identifier and the echoed nonce.
pub open spec fn keep_alive_payload(nonce: i64) -> Seq<u8> {
    varint_bytes(KEEP_ALIVE_REPLY_ID) + u64_be(nonce as u64)
}

/// Builds the handshake payload, rejecting an over-long server address
/// as a contract violation.
pub fn build_handshake(pv: i32, addr: &Vec<u8>, port: u16, next: NextState) -> (r: Result<
    Vec<u8>,
    EncodeError,
>)
    ensures
        addr@.len() <= MAX_SERVER_ADDRESS_LEN ==> (r matches Ok(v) && v@ == handshake_payload(
            pv,
            addr@,
            port,
            next,
        )),
        addr@.len() > MAX_SERVER_ADDRESS_LEN ==> r == Err::<Vec<u8>, EncodeError>(
            EncodeError::FieldTooLong,
        ),
{
    if addr.len() > MAX_SERVER_ADDRESS_LEN {
        return Err(EncodeError::FieldTooLong);
    }
    let mut out: Vec<u8> = Vec::new();
    write_varint(&mut out, HANDSHAKE_ID);
    write_varint(&mut out, pv as u32);
    write_varint(&mut out, addr.len() as u32);
    push_all(&mut out, addr);
    out.push((port / 0x100) as u8);
    out.push((port % 0x100) as u8);
    let code: u32 = match next {
        NextState::Status => 1,
        NextState::Login => 2,
    };
    write_varint(&mut out, code);
    assert(out@ =~= handshake_payload(pv, addr@, port, next));
    Ok(out)
}

/// Builds the login-start payload, rejecting an over-long username as a
/// contract violation.
pub fn build_login_hello(name: &Vec<u8>) -> (r: Result<Vec<u8>, EncodeError>)
    ensures
        name@.len() <= MAX_USERNAME_LEN ==> (r matches Ok(v) && v@ == login_hello_payload(name@)),
        name@.len() > MAX_USERNAME_LEN ==> r == Err::<Vec<u8>, EncodeError>(
            EncodeError::FieldTooLong,
        ),
{
    if name.len() > MAX_USERNAME_LEN {
        return Err(EncodeError::FieldTooLong);
    }
    let mut out: Vec<u8> = Vec::new();
    write_varint(&mut out, LOGIN_HELLO_ID);
    write_varint(&mut out, name.len() as u32);
    push_all(&mut out, name);
    out.push(0);
    assert(out@ =~= login_hello_payload(name@));
    Ok(out)
}

/// Builds the keep-alive reply carrying exactly the peer's nonce.
pub fn build_keep_alive(nonce: i64) -> (v: Vec<u8>)
    ensures
        v@ == keep_alive_payload(nonce),
{
    let mut out: Vec<u8> = Vec::new();
    write_varint(&mut out, KEEP_ALIVE_REPLY_ID);
    let n = nonce as u64;
    out.push((n / 0x100_0000_0000_0000) as u8);
    out.push(((n / 0x1_0000_0000_0000) % 0x100) as u8);
    out.push(((n / 0x100_0000_0000) % 0x100) as u8);
    out.push(((n / 0x1_0000_0000) % 0x100) as u8);
    out.push(((n / 0x100_0000) % 0x100) as u8);
    out.push(((n / 0x1_0000) % 0x100) as u8);
    out.push(((n / 0x100) % 0x100) as u8);
    out.push((n % 0x100) as u8);
    assert(out@ =~= keep_alive_payload(nonce));
    out
}

/// The login-phase packets this client recognizes; anything else is an
/// explicit unknown, to be discarded.
#[derive(Clone, Copy, Debug, PartialEq, Eq, Structural)]
pub enum LoginPacket {
    Compression { threshold: i32 },
    Success,
    Disconnect,
    Unknown { id: u32 },
}

/// The play-phase packets this client recognizes; anything else is an
/// explicit unknown, to be discarded.
#[derive(Clone, Copy, Debug, PartialEq, Eq, Structural)]
pub enum PlayPacket {
    KeepAlive { nonce: i64 },
    Disconnect,
    Unknown { id: u32 },
}

/// What a login-phase frame means: the compression announcement carries
/// its threshold as a variable-length integer (signed, in two's
/// complement); a malformed field is fatal.
pub open spec fn classify_login_spec(id: u32, data: Seq<u8>) -> Result<LoginPacket, DecodeError> {
    if id == LOGIN_COMPRESSION_ID {
        match varint_scan(data) {
            VarScan::Val(v, k) => Ok(LoginPacket::Compression { threshold: v as i32 }),
            _ => Err(DecodeError::BadPacketField),
        }
    } else if id == LOGIN_SUCCESS_ID {
        Ok(LoginPacket::Success)
    } else if id == LOGIN_DISCONNECT_ID {
        Ok(LoginPacket::Disconnect)
    } else {
        Ok(LoginPacket::Unknown { id })
    }
}

/// What a play-phase frame means: the keep-alive ping carries its nonce
/// as 8 big-endian bytes; a short one is fatal.
pub open spec fn classify_play_spec(id: u32, data: Seq<u8>) -> Result<PlayPacket, DecodeError> {
    if id == PLAY_KEEP_ALIVE_ID {
        if data.len() >= 8 {
            Ok(PlayPacket::KeepAlive { nonce: u64_be_val(data.take(8)) as i64 })
        } else {
            Err(DecodeError::BadPacketField)
        }
    } else if id == PLAY_DISCONNECT_ID {
        Ok(PlayPacket::Disconnect)
    } else {
        Ok(PlayPacket::Unknown { id })
    }
}

/// Classifies one decoded login-phase frame.
pub fn classify_login(f: &RawFrame) -> (r: Result<LoginPacket, DecodeError>)
    ensures
        r == classify_login_spec(f.id, f.data@),
{
    if f.id == LOGIN_COMPRESSION_ID {
        let sc = scan_varint(&f.data, 0);
        proof {
            assert(f.data@.subrange(0, f.data@.len() as int) =~= f.data@);
        }
        match sc {
            VarScan::Val(v, _k) => Ok(LoginPacket::Compression { threshold: v as i32 }),
            _ => Err(DecodeError::BadPacketField),
        }
    } else if f.id == LOGIN_SUCCESS_ID {
        Ok(LoginPacket::Success)
    } else if f.id == LOGIN_DISCONNECT_ID {
        Ok(LoginPacket::Disconnect)
    } else {
        Ok(LoginPacket::Unknown { id: f.id })
    }
}

/// Classifies one decoded play-phase frame.
pub fn classify_play(f: &RawFrame) -> (r: Result<PlayPacket, DecodeError>)
    ensures
        r == classify_play_spec(f.id, f.data@),
{
    if f.id == PLAY_KEEP_ALIVE_ID {
        if f.data.len() >= 8 {
            let n: u64 = (f.data[0] as u64) * 0x100_0000_0000_0000 + (f.data[1] as u64)
                * 0x1_0000_0000_0000 + (f.data[2] as u64) * 0x100_0000_0000 + (f.data[3] as u64)
                * 0x1_0000_0000 + (f.data[4] as u64) * 0x100_0000 + (f.data[5] as u64) * 0x1_0000
                + (f.data[6] as u64) * 0x100 + (f.data[7] as u64);
            proof {
                let s = f.data@.take(8);
                assert(s[0] == f.data@[0] && s[1] == f.data@[1] && s[2] == f.data@[2] && s[3]
                    == f.data@[3] && s[4] == f.data@[4] && s[5] == f.data@[5] && s[6] == f.data@[6]
                    && s[7] == f.data@[7]);
            }
            Ok(PlayPacket::KeepAlive { nonce: n as i64 })
        } else {
            Err(DecodeError::BadPacketField)
        }
    } else if f.id == PLAY_DISCONNECT_ID {
        Ok(PlayPacket::Disconnect)
    } else {
        Ok(PlayPacket::Unknown { id: f.id })
    }
}

} // verus!
