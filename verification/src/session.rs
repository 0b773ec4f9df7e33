//! The session driver: the per-connection control loop's decisions. It
//! owns the decoder, feeds it the bytes each read delivers, dispatches
//! every decoded frame to the protocol state machine in arrival order,
//! and hands back what to write. The caller performs the reads and
//! writes; nothing here suspends.

use vstd::prelude::*;
use crate::codec::{
    Decoder, DecodeOutcome, DecodeError, EncodeError, window_outcome, frame_bytes, frame_fits,
    encode_frame, push_all,
};
use crate::packets::{
    NextState, PROTOCOL_VERSION, MAX_SERVER_ADDRESS_LEN, MAX_USERNAME_LEN, handshake_payload,
    login_hello_payload, keep_alive_payload, build_handshake, build_login_hello, build_keep_alive,
};
use crate::protocol::{Phase, CloseReason, ProtoAction, frame_transition, handle_frame};

verus! {

/// The mathematical state of one session: the decoder's pending window
/// and threshold, the protocol phase, and — once closed — why.
pub ghost struct SessionModel {
    pub pending: Seq<u8>,
    pub threshold: int,
    pub phase: Phase,
    pub reason: Option<CloseReason>,
}

impl SessionModel {
    /// A session carries a close reason exactly while it is closed.
    pub open spec fn wf(self) -> bool {
        self.reason is Some <==> self.phase is Closed
    }
}

/// `m`, closed for reason `r`.
pub open spec fn close_model(m: SessionModel, r: CloseReason) -> SessionModel {
    SessionModel { phase: Phase::Closed, reason: Some(r), ..m }
}

/// What one driver step asks of the caller: read more bytes, go around
/// again, write these bytes in full before pumping on, or stop.
pub enum PumpStep {
    NeedInput,
    Progress,
    Send(Vec<u8>),
    Closed(CloseReason),
}

/// The ghost image of a driver step.
pub enum PumpModel {
    NeedInput,
    Progress,
    Send(Seq<u8>),
    Closed(CloseReason),
}

impl View for PumpStep {
    type V = PumpModel;

    closed spec fn view(&self) -> PumpModel {
        match self {
            PumpStep::NeedInput => PumpModel::NeedInput,
            PumpStep::Progress => PumpModel::Progress,
            PumpStep::Send(v) => PumpModel::Send(v@),
            PumpStep::Closed(r) => PumpModel::Closed(*r),
        }
    }
}

/// One whole driver step: decode at most one frame from the window,
/// dispatch it, and decide what the caller does next. A closed session
/// only reports its reason; a keep-alive reply is handed out for writing
/// before any later frame is looked at.
pub open spec fn pump_spec(m: SessionModel) -> (SessionModel, PumpModel) {
    if m.phase is Closed {
        (m, PumpModel::Closed(m.reason.unwrap()))
    } else {
        match window_outcome(m.pending, m.threshold) {
            DecodeOutcome::Incomplete => (m, PumpModel::NeedInput),
            DecodeOutcome::Fail(e) => (
                close_model(m, CloseReason::Decode(e)),
                PumpModel::Closed(CloseReason::Decode(e)),
            ),
            DecodeOutcome::Frame { id, data, used } => {
                let m1 = SessionModel {
                    pending: m.pending.subrange(used, m.pending.len() as int),
                    ..m
                };
                match frame_transition(m.phase, id, data) {
                    Err(e) => (
                        close_model(m1, CloseReason::Decode(e)),
                        PumpModel::Closed(CloseReason::Decode(e)),
                    ),
                    Ok((ph2, act)) => {
                        if ph2 is Closed {
                            (
                                close_model(m1, CloseReason::ServerDisconnect),
                                PumpModel::Closed(CloseReason::ServerDisconnect),
                            )
                        } else {
                            match act {
                                ProtoAction::Nothing => (
                                    SessionModel { phase: ph2, ..m1 },
                                    PumpModel::Progress,
                                ),
                                ProtoAction::EnableCompression(t) => (
                                    SessionModel { phase: ph2, threshold: t as int, ..m1 },
                                    PumpModel::Progress,
                                ),
                                ProtoAction::SendKeepAlive(n) => {
                                    let pb = keep_alive_payload(n);
                                    if frame_fits(pb, m1.threshold) {
                                        (
                                            SessionModel { phase: ph2, ..m1 },
                                            PumpModel::Send(frame_bytes(pb, m1.threshold)),
                                        )
                                    } else {
                                        (
                                            close_model(
                                                m1,
                                                CloseReason::Encode(EncodeError::FrameTooLarge),
                                            ),
                                            PumpModel::Closed(
                                                CloseReason::Encode(EncodeError::FrameTooLarge),
                                            ),
                                        )
                                    }
                                },
                            }
                        }
                    },
                }
            },
        }
    }
}

/// The bytes the driver sends right after connecting: the handshake
/// frame, and — when heading for login — the login-start frame, both
/// before compression can be active.
pub open spec fn start_bytes(addr: Seq<u8>, port: u16, name: Seq<u8>, next: NextState) -> Seq<u8> {
    frame_bytes(handshake_payload(PROTOCOL_VERSION, addr, port, next), -1) + (
    if next is Login {
        frame_bytes(login_hello_payload(name), -1)
    } else {
        Seq::<u8>::empty()
    })
}

/// One session: created when a connect succeeds, destroyed on any
/// terminal condition.
pub struct Session {
    dec: Decoder,
    phase: Phase,
    reason: Option<CloseReason>,
}

impl View for Session {
    type V = SessionModel;

    closed spec fn view(&self) -> SessionModel {
        SessionModel {
            pending: self.dec.pending(),
            threshold: self.dec.threshold_val(),
            phase: self.phase,
            reason: self.reason,
        }
    }
}

impl Session {
    /// A fresh session, entered in the handshake phase with an empty
    /// window and compression disabled.
    pub fn new() -> (s: Session)
        ensures
            s@.wf(),
            s@.phase == Phase::Handshake,
            s@.pending == Seq::<u8>::empty(),
            s@.threshold == -1,
    {
        Session { dec: Decoder::new(), phase: Phase::Handshake, reason: None }
    }

    /// Serializes the opening sends and moves into the requested phase,
    /// rejecting over-long fields as a contract violation and then
    /// leaving the session untouched.
    pub fn start(&mut self, addr: &Vec<u8>, port: u16, name: &Vec<u8>, next: NextState) -> (r:
        Result<Vec<u8>, EncodeError>)
        requires
            old(self)@.wf(),
            old(self)@.phase == Phase::Handshake,
        ensures
            final(self)@.wf(),
            addr@.len() <= MAX_SERVER_ADDRESS_LEN && (next is Login ==> name@.len()
                <= MAX_USERNAME_LEN) ==> (r matches Ok(v) && v@ == start_bytes(
                addr@,
                port,
                name@,
                next,
            ) && final(self)@.phase == (if next is Login {
                Phase::Login
            } else {
                Phase::Status
            }) && final(self)@.pending == old(self)@.pending && final(self)@.threshold == old(
                self,
            )@.threshold && final(self)@.reason is None),
            !(addr@.len() <= MAX_SERVER_ADDRESS_LEN && (next is Login ==> name@.len()
                <= MAX_USERNAME_LEN)) ==> r == Err::<Vec<u8>, EncodeError>(EncodeError::FieldTooLong)
                && final(self)@ == old(self)@,
    {
        let hs = match build_handshake(PROTOCOL_VERSION, addr, port, next) {
            Ok(v) => v,
            Err(e) => {
                return Err(e);
            },
        };
        proof {
            crate::varint::lemma_varint_bytes_len(crate::packets::HANDSHAKE_ID);
            crate::varint::lemma_varint_bytes_len(PROTOCOL_VERSION as u32);
            crate::varint::lemma_varint_bytes_len(addr@.len() as u32);
            crate::varint::lemma_varint_bytes_len(crate::packets::next_state_code(next));
        }
        let mut out = match encode_frame(&hs, -1) {
            Ok(v) => v,
            Err(_) => {
                // A bounded handshake payload always fits in one frame.
                proof {
                    assert(false);
                }
                return Err(EncodeError::FieldTooLong);
            },
        };
        match next {
            NextState::Login => {
                let lh = match build_login_hello(name) {
                    Ok(v) => v,
                    Err(e) => {
                        return Err(e);
                    },
                };
                proof {
                    crate::varint::lemma_varint_bytes_len(crate::packets::LOGIN_HELLO_ID);
                    crate::varint::lemma_varint_bytes_len(name@.len() as u32);
                }
                let lf = match encode_frame(&lh, -1) {
                    Ok(v) => v,
                    Err(_) => {
                        // A bounded login payload always fits in one frame.
                        proof {
                            assert(false);
                        }
                        return Err(EncodeError::FieldTooLong);
                    },
                };
                push_all(&mut out, &lf);
                self.phase = Phase::Login;
                assert(out@ =~= start_bytes(addr@, port, name@, next));
                Ok(out)
            },
            NextState::Status => {
                self.phase = Phase::Status;
                assert(out@ =~= start_bytes(addr@, port, name@, next));
                Ok(out)
            },
        }
    }

    /// Queues the bytes one socket read delivered (a read of zero bytes
    /// is `on_peer_closed`, not this).
    pub fn on_bytes(&mut self, data: &Vec<u8>)
        ensures
            final(self)@ == (SessionModel {
                pending: old(self)@.pending + data@,
                ..old(self)@
            }),
    {
        self.dec.queue_input(data);
    }

    /// A socket read returned zero bytes: the peer closed. A normal
    /// terminal transition, not an error; an already-closed session keeps
    /// its original reason.
    pub fn on_peer_closed(&mut self)
        ensures
            old(self)@.phase is Closed ==> final(self)@ == old(self)@,
            !(old(self)@.phase is Closed) ==> final(self)@ == close_model(
                old(self)@,
                CloseReason::PeerClosed,
            ),
    {
        match self.phase {
            Phase::Closed => {},
            _ => {
                self.phase = Phase::Closed;
                self.reason = Some(CloseReason::PeerClosed);
            },
        }
    }

    /// A read or write failed: fatal to the session; an already-closed
    /// session keeps its original reason.
    pub fn on_io_error(&mut self)
        ensures
            old(self)@.phase is Closed ==> final(self)@ == old(self)@,
            !(old(self)@.phase is Closed) ==> final(self)@ == close_model(
                old(self)@,
                CloseReason::IoFailed,
            ),
    {
        match self.phase {
            Phase::Closed => {},
            _ => {
                self.phase = Phase::Closed;
                self.reason = Some(CloseReason::IoFailed);
            },
        }
    }

    /// The current protocol phase.
    pub fn phase(&self) -> (p: Phase)
        ensures
            p == self@.phase,
    {
        self.phase
    }

    /// Why the session closed, while it is closed.
    pub fn close_reason(&self) -> (r: Option<CloseReason>)
        ensures
            r == self@.reason,
    {
        self.reason
    }

    /// One driver step, exactly as `pump_spec` says: decode at most one
    /// frame, dispatch it, and tell the caller what to do next.
    pub fn pump(&mut self) -> (r: PumpStep)
        requires
            old(self)@.wf(),
        ensures
            final(self)@.wf(),
            final(self)@ == pump_spec(old(self)@).0,
            r@ == pump_spec(old(self)@).1,
    {
        match self.reason {
            Some(why) => PumpStep::Closed(why),
            None => {
                match self.dec.decode_next() {
                    Ok(None) => PumpStep::NeedInput,
                    Err(e) => {
                        self.phase = Phase::Closed;
                        self.reason = Some(CloseReason::Decode(e));
                        PumpStep::Closed(CloseReason::Decode(e))
                    },
                    Ok(Some(f)) => {
                        match handle_frame(self.phase, &f) {
                            Err(e) => {
                                self.phase = Phase::Closed;
                                self.reason = Some(CloseReason::Decode(e));
                                PumpStep::Closed(CloseReason::Decode(e))
                            },
                            Ok((ph2, act)) => {
                                if ph2 == Phase::Closed {
                                    self.phase = Phase::Closed;
                                    self.reason = Some(CloseReason::ServerDisconnect);
                                    PumpStep::Closed(CloseReason::ServerDisconnect)
                                } else {
                                    self.phase = ph2;
                                    match act {
                                        ProtoAction::Nothing => PumpStep::Progress,
                                        ProtoAction::EnableCompression(t) => {
                                            self.dec.set_compression(t);
                                            PumpStep::Progress
                                        },
                                        ProtoAction::SendKeepAlive(n) => {
                                            let pb = build_keep_alive(n);
                                            match encode_frame(&pb, self.dec.threshold()) {
                                                Ok(bytes) => PumpStep::Send(bytes),
                                                Err(e) => {
                                                    self.phase = Phase::Closed;
                                                    self.reason = Some(CloseReason::Encode(e));
                                                    PumpStep::Closed(CloseReason::Encode(e))
                                                },
                                            }
                                        },
                                    }
                                }
                            },
                        }
                    },
                }
            },
        }
    }
}

/// Keep-alive echo: when the next complete frame in an open play-phase
/// session is a keep-alive ping with nonce `nonce`, the driver's next
/// step hands out exactly one encoded keep-alive pong echoing that
/// nonce — nothing else is emitted in between — and the session stays
/// in play with the ping consumed.
pub proof fn lemma_keep_alive_echo(m: SessionModel, nonce: i64, used: int)
    ensures
        (m.wf() && m.phase is Play && window_outcome(m.pending, m.threshold)
            == (DecodeOutcome::Frame {
            id: crate::packets::PLAY_KEEP_ALIVE_ID,
            data: crate::packets::u64_be(nonce as u64),
            used,
        }) && frame_fits(keep_alive_payload(nonce), m.threshold)) ==> (pump_spec(m).1
            == PumpModel::Send(frame_bytes(keep_alive_payload(nonce), m.threshold)) && pump_spec(
            m,
        ).0.phase is Play && pump_spec(m).0.pending == m.pending.subrange(
            used,
            m.pending.len() as int,
        )),
{
    let data = crate::packets::u64_be(nonce as u64);
    assert(data.take(8) =~= data);
    crate::packets::lemma_u64_be_round_trip(nonce as u64);
    let n = nonce;
    assert(((n as u64) as i64) == n) by (bit_vector);
}

/// Phase transition, forward half: a login-success frame moves an open
/// login-phase session into play, with nothing to send.
pub proof fn lemma_login_success_enters_play(m: SessionModel, data: Seq<u8>, used: int)
    ensures
        (m.wf() && m.phase is Login && window_outcome(m.pending, m.threshold)
            == (DecodeOutcome::Frame { id: crate::packets::LOGIN_SUCCESS_ID, data, used })) ==> (
        pump_spec(m).0.phase is Play && pump_spec(m).1 == PumpModel::Progress),
{
}

/// Phase transition, terminal half: a disconnect frame in login or play
/// closes the session as a normal peer-driven ending.
pub proof fn lemma_disconnect_closes(m: SessionModel, data: Seq<u8>, used: int)
    ensures
        (m.wf() && m.phase is Login && window_outcome(m.pending, m.threshold)
            == (DecodeOutcome::Frame { id: crate::packets::LOGIN_DISCONNECT_ID, data, used })) ==> (
        pump_spec(m).0.phase is Closed && pump_spec(m).1 == PumpModel::Closed(
            CloseReason::ServerDisconnect,
        )),
        (m.wf() && m.phase is Play && window_outcome(m.pending, m.threshold)
            == (DecodeOutcome::Frame { id: crate::packets::PLAY_DISCONNECT_ID, data, used })) ==> (
        pump_spec(m).0.phase is Closed && pump_spec(m).1 == PumpModel::Closed(
            CloseReason::ServerDisconnect,
        )),
{
}

/// `Closed` is absorbing: a closed session only ever reports its close
/// reason again; no frame is decoded, nothing changes.
pub proof fn lemma_closed_absorbing(m: SessionModel)
    ensures
        m.phase is Closed ==> pump_spec(m) == (m, PumpModel::Closed(m.reason.unwrap())),
{
}

/// The session's phase never moves backward: one driver step keeps the
/// phase, advances login to play, or closes.
pub proof fn lemma_pump_one_directional(m: SessionModel)
    ensures
        m.wf() ==> (pump_spec(m).0.phase == m.phase || pump_spec(m).0.phase is Closed || (
        m.phase is Login && pump_spec(m).0.phase is Play)),
{
    if m.wf() && !(m.phase is Closed) {
        match window_outcome(m.pending, m.threshold) {
            DecodeOutcome::Frame { id, data, used } => {
                crate::protocol::lemma_transitions_one_directional(m.phase, id, data);
            },
            _ => {},
        }
    }
}

/// Malformed length rejection: a declared frame length beyond
/// `MAX_FRAME_LEN` closes the session with a decode error, leaves the
/// offending buffer untouched, and every later step only repeats the
/// close — no further decode is attempted on the same buffer.
pub proof fn lemma_malformed_length_terminates(m: SessionModel, l: u32, k: usize)
    ensures
        (m.wf() && !(m.phase is Closed) && crate::varint::varint_scan(m.pending)
            == crate::varint::VarScan::Val(l, k) && l > crate::codec::MAX_FRAME_LEN) ==> (pump_spec(
            m,
        ).1 == PumpModel::Closed(CloseReason::Decode(DecodeError::FrameTooLarge)) && pump_spec(
            m,
        ).0.pending == m.pending && pump_spec(pump_spec(m).0) == (
            pump_spec(m).0,
            PumpModel::Closed(CloseReason::Decode(DecodeError::FrameTooLarge)),
        )),
{
    crate::codec::lemma_oversized_frame_fatal(m.pending, m.threshold);
}

} // verus!
