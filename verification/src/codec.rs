//! The frame codec: turns the raw byte stream into discrete frames and
//! serializes packet payloads into length-prefixed frames, under the
//! optional zlib compression that the peer switches on mid-session.
//!
//! Wire form of one frame: `varint(total_length) || payload`. Before
//! compression is enabled the payload is the packet bytes themselves;
//! afterwards it is `varint(uncompressed_length) || compressed_bytes`,
//! with `uncompressed_length == 0` marking a packet short enough to be
//! carried raw.

use vstd::prelude::*;
use crate::varint::{
    VarScan, varint_bytes, varint_scan, scan_varint, write_varint, lemma_varint_scan_of_bytes,
    lemma_varint_scan_prefix,
};
use crate::zlib::{deflate_of, inflate_of, zlib_deflate, zlib_inflate_upto};

verus! {

/// Largest frame length the protocol permits on the wire (the largest
/// value a 3-byte length prefix can carry). A longer declared length is
/// malformed and fatal to the session.
pub const MAX_FRAME_LEN: u32 = 0x1f_ffff;

/// Why a frame could not be decoded. Every one of these is fatal to the
/// enclosing session: the codec does not resynchronize.
#[derive(Clone, Copy, Debug, PartialEq, Eq, Structural)]
pub enum DecodeError {
    /// The length prefix is not a well-formed variable-length integer.
    BadLengthPrefix,
    /// The declared frame length exceeds `MAX_FRAME_LEN`.
    FrameTooLarge,
    /// The compression sub-field is not a well-formed variable-length
    /// integer, or declares an impossible uncompressed length.
    BadDataLength,
    /// The compressed bytes do not decompress, or their decompressed
    /// length disagrees with the declared one.
    BadCompression,
    /// The decompressed payload does not begin with a packet identifier.
    BadPacketId,
    /// A recognized packet's payload is too short or ill-formed for its
    /// declared identifier.
    BadPacketField,
}

/// Why a packet could not be encoded: a programming-contract violation,
/// not a runtime condition to recover from.
#[derive(Clone, Copy, Debug, PartialEq, Eq, Structural)]
pub enum EncodeError {
    /// A string field exceeds its declared maximum length.
    FieldTooLong,
    /// The frame would exceed `MAX_FRAME_LEN` on the wire.
    FrameTooLarge,
}

/// One decoded frame: a packet identifier and the (decompressed)
/// application payload that followed it.
#[derive(Debug)]
pub struct RawFrame {
    pub id: u32,
    pub data: Vec<u8>,
}

/// What one attempt to take a frame from the front of a byte window
/// yields: not enough bytes yet, a malformed stream, or a frame together
/// with how many bytes of the window it occupied.
pub enum DecodeOutcome {
    Incomplete,
    Fail(DecodeError),
    Frame { id: u32, data: Seq<u8>, used: int },
}

/// The compression threshold is active only when positive; zero or a
/// negative value leaves every frame uncompressed.
pub open spec fn compression_enabled(t: int) -> bool {
    t > 0
}

/// Splits a complete application payload into packet identifier and body.
pub open spec fn packet_outcome(pl: Seq<u8>, used: int) -> DecodeOutcome {
    match varint_scan(pl) {
        VarScan::Val(id, k) => DecodeOutcome::Frame {
            id,
            data: pl.subrange(k as int, pl.len() as int),
            used,
        },
        _ => DecodeOutcome::Fail(DecodeError::BadPacketId),
    }
}

/// Interprets the body of one complete frame under threshold `t`.
pub open spec fn body_outcome(body: Seq<u8>, t: int, used: int) -> DecodeOutcome {
    if !compression_enabled(t) {
        packet_outcome(body, used)
    } else {
        match varint_scan(body) {
            VarScan::Val(dlen, k) => {
                if dlen == 0 {
                    packet_outcome(body.subrange(k as int, body.len() as int), used)
                } else if dlen > MAX_FRAME_LEN {
                    DecodeOutcome::Fail(DecodeError::BadDataLength)
                } else {
                    match inflate_of(body.subrange(k as int, body.len() as int)) {
                        Some(p) => {
                            if p.len() == dlen {
                                packet_outcome(p, used)
                            } else {
                                DecodeOutcome::Fail(DecodeError::BadCompression)
                            }
                        },
                        None => DecodeOutcome::Fail(DecodeError::BadCompression),
                    }
                }
            },
            _ => DecodeOutcome::Fail(DecodeError::BadDataLength),
        }
    }
}

/// The decoder's whole step: what taking one frame from the front of the
/// pending window `s` yields under threshold `t`.
pub open spec fn window_outcome(s: Seq<u8>, t: int) -> DecodeOutcome {
    match varint_scan(s) {
        VarScan::More => DecodeOutcome::Incomplete,
        VarScan::Bad => DecodeOutcome::Fail(DecodeError::BadLengthPrefix),
        VarScan::Val(len, k) => {
            if len > MAX_FRAME_LEN {
                DecodeOutcome::Fail(DecodeError::FrameTooLarge)
            } else if s.len() < k + len {
                DecodeOutcome::Incomplete
            } else {
                body_outcome(s.subrange(k as int, k + len), t, k + len)
            }
        },
    }
}

/// Copies `v[from..to]` into a fresh vector.
pub fn vec_subrange(v: &Vec<u8>, from: usize, to: usize) -> (r: Vec<u8>)
    requires
        from <= to <= v.len(),
    ensures
        r@ == v@.subrange(from as int, to as int),
{
    let mut r: Vec<u8> = Vec::new();
    let mut i: usize = from;
    while i < to
        invariant
            from <= i <= to <= v.len(),
            r@ == v@.subrange(from as int, i as int),
        decreases to - i,
    {
        r.push(v[i]);
        assert(r@ =~= v@.subrange(from as int, i as int + 1));
        i = i + 1;
    }
    r
}

/// Appends all of `data` to `out`.
pub fn push_all(out: &mut Vec<u8>, data: &Vec<u8>)
    ensures
        final(out)@ == old(out)@ + data@,
{
    let mut i: usize = 0;
    while i < data.len()
        invariant
            i <= data.len(),
            out@ == old(out)@ + data@.subrange(0, i as int),
        decreases data.len() - i,
    {
        out.push(data[i]);
        assert(out@ =~= old(out)@ + data@.subrange(0, i as int + 1));
        i = i + 1;
    }
    assert(out@ =~= old(out)@ + data@);
}

/// The decoder: an accumulating pending window plus the compression
/// threshold the peer has announced (negative until then).
pub struct Decoder {
    buf: Vec<u8>,
    threshold: i32,
}

impl Decoder {
    /// The bytes received but not yet decoded, oldest first.
    pub closed spec fn pending(&self) -> Seq<u8> {
        self.buf@
    }

    /// The compression threshold currently in force.
    pub closed spec fn threshold_val(&self) -> int {
        self.threshold as int
    }

    /// A fresh decoder: empty window, compression disabled.
    pub fn new() -> (d: Decoder)
        ensures
            d.pending() == Seq::<u8>::empty(),
            d.threshold_val() == -1,
    {
        Decoder { buf: Vec::new(), threshold: -1 }
    }

    /// Appends newly received raw bytes to the pending window. Never
    /// fails; decoding is deferred until `decode_next` is pumped.
    pub fn queue_input(&mut self, data: &Vec<u8>)
        ensures
            final(self).pending() == old(self).pending() + data@,
            final(self).threshold_val() == old(self).threshold_val(),
    {
        push_all(&mut self.buf, data);
    }

    /// The compression threshold in force, as handed to `set_compression`.
    pub fn threshold(&self) -> (t: i32)
        ensures
            t as int == self.threshold_val(),
    {
        self.threshold
    }

    /// Installs the peer-announced compression threshold. It governs every
    /// frame decoded from now on, the already-buffered ones included.
    pub fn set_compression(&mut self, t: i32)
        ensures
            final(self).pending() == old(self).pending(),
            final(self).threshold_val() == t as int,
    {
        self.threshold = t;
    }

    /// Attempts to parse one complete frame from the front of the pending
    /// window: `Ok(None)` while bytes are missing (window untouched), a
    /// fatal `DecodeError` on a malformed stream (window untouched), or
    /// the frame, with exactly its bytes consumed from the front.
    pub fn decode_next(&mut self) -> (r: Result<Option<RawFrame>, DecodeError>)
        ensures
            final(self).threshold_val() == old(self).threshold_val(),
            match window_outcome(old(self).pending(), old(self).threshold_val()) {
                DecodeOutcome::Incomplete => r matches Ok(o) && o is None
                    && final(self).pending() == old(self).pending(),
                DecodeOutcome::Fail(e) => r == Err::<Option<RawFrame>, DecodeError>(e)
                    && final(self).pending() == old(self).pending(),
                DecodeOutcome::Frame { id, data, used } => r matches Ok(o) && o matches Some(f)
                    && f.id == id && f.data@ == data
                    && final(self).pending() == old(self).pending().subrange(
                    used,
                    old(self).pending().len() as int,
                ),
            },
    {
        let ghost s = self.buf@;
        let sc = scan_varint(&self.buf, 0);
        proof {
            assert(s.subrange(0, s.len() as int) =~= s);
        }
        match sc {
            VarScan::More => Ok(None),
            VarScan::Bad => Err(DecodeError::BadLengthPrefix),
            VarScan::Val(len, k) => {
                proof {
                    crate::varint::lemma_varint_scan_val(s);
                }
                if len > MAX_FRAME_LEN {
                    return Err(DecodeError::FrameTooLarge);
                }
                let len_us = len as usize;
                if self.buf.len() - k < len_us {
                    return Ok(None);
                }
                let total = k + len_us;
                let body = vec_subrange(&self.buf, k, total);
                let frame = self.parse_body(&body)?;
                self.buf = vec_subrange(&self.buf, total, self.buf.len());
                Ok(Some(frame))
            },
        }
    }

    /// Interprets one complete frame body under the current threshold.
    fn parse_body(&self, body: &Vec<u8>) -> (r: Result<RawFrame, DecodeError>)
        ensures
            match body_outcome(body@, self.threshold_val(), 0) {
                DecodeOutcome::Frame { id, data, used } => r matches Ok(f) && f.id == id && f.data@
                    == data,
                DecodeOutcome::Fail(e) => r == Err::<RawFrame, DecodeError>(e),
                DecodeOutcome::Incomplete => false,
            },
    {
        if self.threshold <= 0 {
            parse_packet(body)
        } else {
            let ghost b = body@;
            let sc = scan_varint(body, 0);
            proof {
                assert(b.subrange(0, b.len() as int) =~= b);
            }
            match sc {
                VarScan::Val(dlen, k) => {
                    proof {
                        crate::varint::lemma_varint_scan_val(b);
                    }
                    if dlen == 0 {
                        let inner = vec_subrange(body, k, body.len());
                        parse_packet(&inner)
                    } else if dlen > MAX_FRAME_LEN {
                        Err(DecodeError::BadDataLength)
                    } else {
                        let compressed = vec_subrange(body, k, body.len());
                        match zlib_inflate_upto(&compressed, dlen as usize) {
                            Some(p) => {
                                if p.len() == dlen as usize {
                                    parse_packet(&p)
                                } else {
                                    Err(DecodeError::BadCompression)
                                }
                            },
                            None => Err(DecodeError::BadCompression),
                        }
                    }
                },
                _ => Err(DecodeError::BadDataLength),
            }
        }
    }
}

/// The wire bytes of one frame carrying payload `pl` under threshold `t`:
/// uncompressed below or at the threshold, zlib-compressed above it.
pub open spec fn frame_bytes(pl: Seq<u8>, t: int) -> Seq<u8> {
    if !compression_enabled(t) {
        varint_bytes(pl.len() as u32) + pl
    } else if pl.len() <= t {
        varint_bytes((pl.len() + 1) as u32) + seq![0u8] + pl
    } else {
        varint_bytes((varint_bytes(pl.len() as u32) + deflate_of(pl)).len() as u32)
            + varint_bytes(pl.len() as u32) + deflate_of(pl)
    }
}

/// Whether the frame for `pl` is legal on the wire, its declared length
/// within `MAX_FRAME_LEN`.
pub open spec fn frame_fits(pl: Seq<u8>, t: int) -> bool {
    if !compression_enabled(t) {
        pl.len() <= MAX_FRAME_LEN
    } else if pl.len() <= t {
        pl.len() + 1 <= MAX_FRAME_LEN
    } else {
        pl.len() <= MAX_FRAME_LEN && varint_bytes(pl.len() as u32).len() + deflate_of(pl).len()
            <= MAX_FRAME_LEN
    }
}

/// Serializes one frame for payload `pl` under threshold `t`, failing
/// exactly when the frame would be oversized on the wire.
pub fn encode_frame(pl: &Vec<u8>, t: i32) -> (r: Result<Vec<u8>, EncodeError>)
    ensures
        frame_fits(pl@, t as int) ==> (r matches Ok(v) && v@ == frame_bytes(pl@, t as int)),
        !frame_fits(pl@, t as int) ==> r == Err::<Vec<u8>, EncodeError>(EncodeError::FrameTooLarge),
{
    let mut out: Vec<u8> = Vec::new();
    if t <= 0 {
        if pl.len() > MAX_FRAME_LEN as usize {
            return Err(EncodeError::FrameTooLarge);
        }
        write_varint(&mut out, pl.len() as u32);
        push_all(&mut out, pl);
        assert(out@ =~= frame_bytes(pl@, t as int));
        Ok(out)
    } else if pl.len() <= t as usize {
        if pl.len() >= MAX_FRAME_LEN as usize {
            return Err(EncodeError::FrameTooLarge);
        }
        write_varint(&mut out, (pl.len() + 1) as u32);
        out.push(0);
        push_all(&mut out, pl);
        assert(out@ =~= frame_bytes(pl@, t as int));
        Ok(out)
    } else {
        if pl.len() > MAX_FRAME_LEN as usize {
            return Err(EncodeError::FrameTooLarge);
        }
        let comp = zlib_deflate(pl);
        let mut inner: Vec<u8> = Vec::new();
        write_varint(&mut inner, pl.len() as u32);
        proof {
            crate::varint::lemma_varint_bytes_len(pl.len() as u32);
        }
        if comp.len() > MAX_FRAME_LEN as usize - inner.len() {
            return Err(EncodeError::FrameTooLarge);
        }
        write_varint(&mut out, (inner.len() + comp.len()) as u32);
        push_all(&mut out, &inner);
        push_all(&mut out, &comp);
        assert(out@ =~= frame_bytes(pl@, t as int));
        Ok(out)
    }
}

/// The encoder: outgoing bytes accumulating serialized frames until one
/// flushed write, plus the compression threshold in force.
pub struct Encoder {
    out: Vec<u8>,
    threshold: i32,
}

impl Encoder {
    /// The serialized frames awaiting a flush, oldest first.
    pub closed spec fn buffered(&self) -> Seq<u8> {
        self.out@
    }

    /// The compression threshold currently in force.
    pub closed spec fn threshold_val(&self) -> int {
        self.threshold as int
    }

    /// A fresh encoder: nothing buffered, compression disabled.
    pub fn new() -> (e: Encoder)
        ensures
            e.buffered() == Seq::<u8>::empty(),
            e.threshold_val() == -1,
    {
        Encoder { out: Vec::new(), threshold: -1 }
    }

    /// Installs the peer-announced compression threshold for every frame
    /// appended from now on.
    pub fn set_compression(&mut self, t: i32)
        ensures
            final(self).buffered() == old(self).buffered(),
            final(self).threshold_val() == t as int,
    {
        self.threshold = t;
    }

    /// Serializes one frame for payload `pl` and appends it to the pending
    /// output, failing exactly when the frame would be oversized.
    pub fn append_payload(&mut self, pl: &Vec<u8>) -> (r: Result<(), EncodeError>)
        ensures
            final(self).threshold_val() == old(self).threshold_val(),
            frame_fits(pl@, old(self).threshold_val()) ==> (r matches Ok(u) && final(self).buffered()
                == old(self).buffered() + frame_bytes(pl@, old(self).threshold_val())),
            !frame_fits(pl@, old(self).threshold_val()) ==> r == Err::<(), EncodeError>(
                EncodeError::FrameTooLarge,
            ) && final(self).buffered() == old(self).buffered(),
    {
        match encode_frame(pl, self.threshold) {
            Ok(bytes) => {
                push_all(&mut self.out, &bytes);
                Ok(())
            },
            Err(e) => Err(e),
        }
    }

    /// Returns and clears all pending encoded bytes; the caller writes
    /// them to the socket in full before appending more.
    pub fn take_output(&mut self) -> (r: Vec<u8>)
        ensures
            r@ == old(self).buffered(),
            final(self).buffered() == Seq::<u8>::empty(),
            final(self).threshold_val() == old(self).threshold_val(),
    {
        let r = vec_subrange(&self.out, 0, self.out.len());
        self.out = Vec::new();
        proof {
            assert(r@ =~= old(self).buffered());
        }
        r
    }
}

/// Splits a complete application payload into identifier and body.
fn parse_packet(pl: &Vec<u8>) -> (r: Result<RawFrame, DecodeError>)
    ensures
        match packet_outcome(pl@, 0) {
            DecodeOutcome::Frame { id, data, used } => r matches Ok(f) && f.id == id && f.data@
                == data,
            DecodeOutcome::Fail(e) => r == Err::<RawFrame, DecodeError>(e),
            DecodeOutcome::Incomplete => false,
        },
{
    let ghost s = pl@;
    let sc = scan_varint(pl, 0);
    proof {
        assert(s.subrange(0, s.len() as int) =~= s);
    }
    match sc {
        VarScan::Val(id, k) => {
            proof {
                crate::varint::lemma_varint_scan_val(s);
            }
            let data = vec_subrange(pl, k, pl.len());
            Ok(RawFrame { id, data })
        },
        _ => Err(DecodeError::BadPacketId),
    }
}

/// Framing round-trip: a window that starts with the encoded frame for
/// `pl` decodes to exactly the packet bytes `pl`, whatever follows the
/// frame and whether or not compression is active. In the compressed
/// case the claim holds under the zlib round-trip fact that the trusted
/// compressor guarantees at every call.
/// The uncompressed branch of the framing round-trip.
proof fn lemma_round_trip_plain(pl: Seq<u8>, t: int, rest: Seq<u8>)
    requires
        !compression_enabled(t),
        pl.len() <= MAX_FRAME_LEN,
    ensures
        window_outcome(frame_bytes(pl, t) + rest, t) == packet_outcome(
            pl,
            frame_bytes(pl, t).len() as int,
        ),
{
    let lv = pl.len() as u32;
    let s = frame_bytes(pl, t) + rest;
    assert(s =~= varint_bytes(lv) + (pl + rest));
    lemma_varint_scan_of_bytes(lv, pl + rest);
    crate::varint::lemma_varint_bytes_len(lv);
    let k = varint_bytes(lv).len() as int;
    assert(s.subrange(k, k + lv) =~= pl);
}

/// The below-threshold branch of the framing round-trip: the payload is
/// carried raw behind a zero marker.
proof fn lemma_round_trip_raw(pl: Seq<u8>, t: int, rest: Seq<u8>)
    requires
        compression_enabled(t),
        pl.len() <= t,
        pl.len() + 1 <= MAX_FRAME_LEN,
    ensures
        window_outcome(frame_bytes(pl, t) + rest, t) == packet_outcome(
            pl,
            frame_bytes(pl, t).len() as int,
        ),
{
    let lv = (pl.len() + 1) as u32;
    let inner = seq![0u8] + pl;
    let s = frame_bytes(pl, t) + rest;
    assert(s =~= varint_bytes(lv) + (inner + rest));
    lemma_varint_scan_of_bytes(lv, inner + rest);
    crate::varint::lemma_varint_bytes_len(lv);
    let k = varint_bytes(lv).len() as int;
    let body = s.subrange(k, k + lv);
    assert(body =~= inner);
    assert(body[0] == 0);
    assert(varint_scan(body) == VarScan::Val(0u32, 1usize));
    assert(body.subrange(1, body.len() as int) =~= pl);
}

/// The compressed branch of the framing round-trip, under the zlib
/// round-trip fact.
proof fn lemma_round_trip_compressed(pl: Seq<u8>, t: int, rest: Seq<u8>)
    requires
        compression_enabled(t),
        pl.len() > t,
        frame_fits(pl, t),
        inflate_of(deflate_of(pl)) == Some(pl),
    ensures
        window_outcome(frame_bytes(pl, t) + rest, t) == packet_outcome(
            pl,
            frame_bytes(pl, t).len() as int,
        ),
{
    let dv = pl.len() as u32;
    let inner = varint_bytes(dv) + deflate_of(pl);
    let lv = inner.len() as u32;
    let s = frame_bytes(pl, t) + rest;
    assert(s =~= varint_bytes(lv) + (inner + rest));
    lemma_varint_scan_of_bytes(lv, inner + rest);
    crate::varint::lemma_varint_bytes_len(lv);
    crate::varint::lemma_varint_bytes_len(dv);
    let k = varint_bytes(lv).len() as int;
    let body = s.subrange(k, k + lv);
    assert(body =~= inner);
    lemma_varint_scan_of_bytes(dv, deflate_of(pl));
    let k2 = varint_bytes(dv).len() as int;
    assert(varint_scan(body) == VarScan::Val(dv, k2 as usize));
    assert(body.subrange(k2, body.len() as int) =~= deflate_of(pl));
}

pub proof fn lemma_frame_round_trip(pl: Seq<u8>, t: int, rest: Seq<u8>)
    ensures
        !compression_enabled(t) && pl.len() <= MAX_FRAME_LEN ==> window_outcome(
            frame_bytes(pl, t) + rest,
            t,
        ) == packet_outcome(pl, frame_bytes(pl, t).len() as int),
        compression_enabled(t) && pl.len() <= t && pl.len() + 1 <= MAX_FRAME_LEN
            ==> window_outcome(frame_bytes(pl, t) + rest, t) == packet_outcome(
            pl,
            frame_bytes(pl, t).len() as int,
        ),
        compression_enabled(t) && pl.len() > t && frame_fits(pl, t) && inflate_of(deflate_of(pl))
            == Some(pl) ==> window_outcome(frame_bytes(pl, t) + rest, t) == packet_outcome(
            pl,
            frame_bytes(pl, t).len() as int,
        ),
{
    if !compression_enabled(t) && pl.len() <= MAX_FRAME_LEN {
        lemma_round_trip_plain(pl, t, rest);
    } else if compression_enabled(t) && pl.len() <= t && pl.len() + 1 <= MAX_FRAME_LEN {
        lemma_round_trip_raw(pl, t, rest);
    } else if compression_enabled(t) && pl.len() > t && frame_fits(pl, t) && inflate_of(
        deflate_of(pl),
    ) == Some(pl) {
        lemma_round_trip_compressed(pl, t, rest);
    }
}

/// A payload built as `varint(id) || fields` splits back into exactly
/// that identifier and those fields: together with the round-trip above,
/// encode-then-decode is the identity on a packet's serialized form.
pub proof fn lemma_packet_outcome_of_payload(id: u32, data: Seq<u8>, used: int)
    ensures
        packet_outcome(varint_bytes(id) + data, used) == (DecodeOutcome::Frame { id, data, used }),
{
    lemma_varint_scan_of_bytes(id, data);
    crate::varint::lemma_varint_bytes_len(id);
    let pl = varint_bytes(id) + data;
    assert(pl.subrange(varint_bytes(id).len() as int, pl.len() as int) =~= data);
}

/// Any strict prefix of one encoded frame scans as incomplete: the
/// decoder waits for the rest instead of misreading the cut.
proof fn lemma_window_prefix_incomplete(len_val: u32, inner: Seq<u8>, t: int, i: int)
    requires
        inner.len() == len_val,
        len_val <= MAX_FRAME_LEN,
        0 <= i < varint_bytes(len_val).len() + inner.len(),
    ensures
        window_outcome((varint_bytes(len_val) + inner).take(i), t) == DecodeOutcome::Incomplete,
{
    let vb = varint_bytes(len_val);
    crate::varint::lemma_varint_bytes_len(len_val);
    let k = vb.len() as int;
    let s = (vb + inner).take(i);
    if i < k {
        assert(s =~= vb.take(i));
        lemma_varint_scan_prefix(len_val, i);
    } else {
        assert(s =~= vb + inner.take(i - k));
        lemma_varint_scan_of_bytes(len_val, inner.take(i - k));
        assert(s.len() == i < k + len_val);
    }
}

/// Partial-frame stability, decode side: feeding any strict prefix of an
/// encoded frame leaves the decoder waiting for more bytes, and never
/// yields a frame or an error.
pub proof fn lemma_partial_frame_incomplete(pl: Seq<u8>, t: int, i: int)
    ensures
        frame_fits(pl, t) && 0 <= i < frame_bytes(pl, t).len() ==> window_outcome(
            frame_bytes(pl, t).take(i),
            t,
        ) == DecodeOutcome::Incomplete,
{
    if frame_fits(pl, t) && 0 <= i < frame_bytes(pl, t).len() {
        if !compression_enabled(t) {
            assert(frame_bytes(pl, t).take(i) =~= (varint_bytes(pl.len() as u32) + pl).take(i));
            lemma_window_prefix_incomplete(pl.len() as u32, pl, t, i);
        } else if pl.len() <= t {
            let inner = seq![0u8] + pl;
            assert(frame_bytes(pl, t).take(i) =~= (varint_bytes((pl.len() + 1) as u32)
                + inner).take(i));
            lemma_window_prefix_incomplete((pl.len() + 1) as u32, inner, t, i);
        } else {
            let inner = varint_bytes(pl.len() as u32) + deflate_of(pl);
            assert(frame_bytes(pl, t).take(i) =~= (varint_bytes(inner.len() as u32)
                + inner).take(i));
            lemma_window_prefix_incomplete(inner.len() as u32, inner, t, i);
        }
    }
}

/// Compression threshold boundary: a payload of length exactly the
/// threshold goes out uncompressed behind the zero marker; one byte
/// longer and it goes out compressed; decoding either frame restores
/// the same logical payload bytes (the compressed half under the zlib
/// round-trip fact the trusted compressor guarantees at every call).
pub proof fn lemma_threshold_boundary(pl: Seq<u8>, t: int, rest: Seq<u8>)
    ensures
        compression_enabled(t) && pl.len() == t ==> frame_bytes(pl, t) == varint_bytes(
            (pl.len() + 1) as u32,
        ) + seq![0u8] + pl,
        compression_enabled(t) && pl.len() == t + 1 ==> frame_bytes(pl, t) == varint_bytes(
            (varint_bytes(pl.len() as u32) + deflate_of(pl)).len() as u32,
        ) + varint_bytes(pl.len() as u32) + deflate_of(pl),
        compression_enabled(t) && pl.len() == t && pl.len() + 1 <= MAX_FRAME_LEN
            ==> window_outcome(frame_bytes(pl, t) + rest, t) == packet_outcome(
            pl,
            frame_bytes(pl, t).len() as int,
        ),
        compression_enabled(t) && pl.len() == t + 1 && frame_fits(pl, t) && inflate_of(
            deflate_of(pl),
        ) == Some(pl) ==> window_outcome(frame_bytes(pl, t) + rest, t) == packet_outcome(
            pl,
            frame_bytes(pl, t).len() as int,
        ),
{
    if compression_enabled(t) && pl.len() == t && pl.len() + 1 <= MAX_FRAME_LEN {
        lemma_round_trip_raw(pl, t, rest);
    }
    if compression_enabled(t) && pl.len() == t + 1 && frame_fits(pl, t) && inflate_of(
        deflate_of(pl),
    ) == Some(pl) {
        lemma_round_trip_compressed(pl, t, rest);
    }
}

/// Feeding the bytes of a frame split at an arbitrary offset across two
/// `queue_input` calls builds the same pending window as feeding them in
/// one call: decoding depends only on the accumulated bytes.
pub proof fn lemma_split_feed(p: Seq<u8>, a: Seq<u8>, b: Seq<u8>)
    ensures
        (p + a) + b == p + (a + b),
{
    assert((p + a) + b =~= p + (a + b));
}

/// Malformed length rejection: a window whose length prefix declares more
/// than `MAX_FRAME_LEN` decodes to a fatal error, never to a frame.
pub proof fn lemma_oversized_frame_fatal(s: Seq<u8>, t: int)
    ensures
        (varint_scan(s) matches VarScan::Val(l, k) && l > MAX_FRAME_LEN) ==> window_outcome(s, t)
            == DecodeOutcome::Fail(DecodeError::FrameTooLarge),
{
}

} // verus!
