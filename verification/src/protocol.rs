//! The protocol state machine: which packets are legal in which phase
//! and what each does. The peer drives most transitions — compression is
//! announced, login confirmed, and disconnection decided server-side —
//! so every inbound frame is treated as a potential phase-ending event.
//! Unrecognized identifiers are discarded, never fatal.

use vstd::prelude::*;
use crate::codec::{DecodeError, EncodeError, RawFrame};
use crate::packets::{
    LoginPacket, PlayPacket, classify_login, classify_play, classify_login_spec,
    classify_play_spec,
};

verus! {

/// The conversation's coarse stage. Transitions are one-directional
/// except `Closed`, which is absorbing.
#[derive(Clone, Copy, Debug, PartialEq, Eq, Structural)]
pub enum Phase {
    Handshake,
    Status,
    Login,
    Play,
    Closed,
}

/// Why a session reached `Closed`. A peer-sent disconnect and a peer
/// close are normal terminal transitions, not errors.
#[derive(Clone, Copy, Debug, PartialEq, Eq, Structural)]
pub enum CloseReason {
    /// A socket read returned zero bytes.
    PeerClosed,
    /// The peer sent an explicit disconnect packet.
    ServerDisconnect,
    /// The byte stream was malformed; fatal, no resynchronization.
    Decode(DecodeError),
    /// A reply could not be encoded within the frame-size bound.
    Encode(EncodeError),
    /// A read or write failed; fatal to the session.
    IoFailed,
}

/// The side effect an inbound packet demands of the session driver.
#[derive(Clone, Copy, Debug, PartialEq, Eq, Structural)]
pub enum ProtoAction {
    Nothing,
    /// Install the announced compression threshold in the codec.
    EnableCompression(i32),
    /// Reply with a keep-alive pong echoing this nonce, flushed before
    /// the next inbound frame is processed.
    SendKeepAlive(i64),
}

/// What a login-phase packet does: compression is installed, success
/// enters play, a disconnect closes, anything unknown is discarded.
pub open spec fn login_transition(p: LoginPacket) -> (Phase, ProtoAction) {
    match p {
        LoginPacket::Compression { threshold } => (
            Phase::Login,
            ProtoAction::EnableCompression(threshold),
        ),
        LoginPacket::Success => (Phase::Play, ProtoAction::Nothing),
        LoginPacket::Disconnect => (Phase::Closed, ProtoAction::Nothing),
        LoginPacket::Unknown { .. } => (Phase::Login, ProtoAction::Nothing),
    }
}

/// What a play-phase packet does: a ping demands an echoed pong, a
/// disconnect closes, anything unknown is discarded.
pub open spec fn play_transition(p: PlayPacket) -> (Phase, ProtoAction) {
    match p {
        PlayPacket::KeepAlive { nonce } => (Phase::Play, ProtoAction::SendKeepAlive(nonce)),
        PlayPacket::Disconnect => (Phase::Closed, ProtoAction::Nothing),
        PlayPacket::Unknown { .. } => (Phase::Play, ProtoAction::Nothing),
    }
}

/// The state machine's whole answer to one inbound frame in one phase.
/// Frames arriving in `Handshake` or `Status` are out-of-order from the
/// wire and are discarded rather than enforced against.
pub open spec fn frame_transition(ph: Phase, id: u32, data: Seq<u8>) -> Result<
    (Phase, ProtoAction),
    DecodeError,
> {
    match ph {
        Phase::Login => match classify_login_spec(id, data) {
            Ok(p) => Ok(login_transition(p)),
            Err(e) => Err(e),
        },
        Phase::Play => match classify_play_spec(id, data) {
            Ok(p) => Ok(play_transition(p)),
            Err(e) => Err(e),
        },
        Phase::Handshake => Ok((Phase::Handshake, ProtoAction::Nothing)),
        Phase::Status => Ok((Phase::Status, ProtoAction::Nothing)),
        Phase::Closed => Ok((Phase::Closed, ProtoAction::Nothing)),
    }
}

/// Dispatches one decoded frame to the state machine.
pub fn handle_frame(ph: Phase, f: &RawFrame) -> (r: Result<(Phase, ProtoAction), DecodeError>)
    ensures
        r == frame_transition(ph, f.id, f.data@),
{
    match ph {
        Phase::Login => match classify_login(f) {
            Ok(p) => Ok(match p {
                LoginPacket::Compression { threshold } => (
                    Phase::Login,
                    ProtoAction::EnableCompression(threshold),
                ),
                LoginPacket::Success => (Phase::Play, ProtoAction::Nothing),
                LoginPacket::Disconnect => (Phase::Closed, ProtoAction::Nothing),
                LoginPacket::Unknown { .. } => (Phase::Login, ProtoAction::Nothing),
            }),
            Err(e) => Err(e),
        },
        Phase::Play => match classify_play(f) {
            Ok(p) => Ok(match p {
                PlayPacket::KeepAlive { nonce } => (Phase::Play, ProtoAction::SendKeepAlive(nonce)),
                PlayPacket::Disconnect => (Phase::Closed, ProtoAction::Nothing),
                PlayPacket::Unknown { .. } => (Phase::Play, ProtoAction::Nothing),
            }),
            Err(e) => Err(e),
        },
        Phase::Handshake => Ok((Phase::Handshake, ProtoAction::Nothing)),
        Phase::Status => Ok((Phase::Status, ProtoAction::Nothing)),
        Phase::Closed => Ok((Phase::Closed, ProtoAction::Nothing)),
    }
}

/// Transitions never reopen a conversation: only `Login` reaches `Play`,
/// only a disconnect or an error reaches `Closed`, and no transition
/// leaves `Closed`.
pub proof fn lemma_transitions_one_directional(ph: Phase, id: u32, data: Seq<u8>)
    ensures
        frame_transition(ph, id, data) matches Ok(r) ==> (r.0 == ph || (ph is Login && (r.0 is Play
            || r.0 is Closed)) || (ph is Play && r.0 is Closed)),
{
}

} // verus!
