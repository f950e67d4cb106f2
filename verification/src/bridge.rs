//! Wire framing of the CAN bridge.
//!
//! The bridge forwards raw frames between the local CAN fabric and a
//! remote tool over a byte stream.  A frame crosses the wire as a bridged
//! record: the 32-bit identifier and the 32-bit timestamp, big-endian,
//! then the data bytes behind a one-byte length tag.  On TCP the records
//! travel back to back, each behind a two-byte little-endian length
//! prefix; on WebSocket each record rides alone in one binary message.
//! This module owns the framing only: sockets and the hardware layer stay
//! with the caller.

use vstd::prelude::*;

use crate::errors::ErrorKind;
use crate::errors::GrappleError;

verus! {

/// TCP port the bridge listens on.
pub const TCP_BRIDGE_PORT: u16 = 8006;

/// WebSocket port the bridge falls back to when none is configured.
pub const WS_DEFAULT_PORT: u16 = 7171;

/// Ring capacity of the hardware stream session a bridge opens.
pub const BRIDGE_STREAM_DEPTH: u32 = 1024;

/// Milliseconds between polls of the stream session.
pub const BRIDGE_POLL_MS: u64 = 1;

/// One frame in bridge form: identifier, capture timestamp, data bytes.
#[derive(Clone, Debug)]
pub struct BridgedFrame {
    pub id: u32,
    pub timestamp: u32,
    pub data: Vec<u8>,
}

/// Mathematical model of a bridged frame.
pub struct BridgedFrameModel {
    pub id: u32,
    pub timestamp: u32,
    pub data: Seq<u8>,
}

impl View for BridgedFrame {
    type V = BridgedFrameModel;

    open spec fn view(&self) -> BridgedFrameModel {
        BridgedFrameModel { id: self.id, timestamp: self.timestamp, data: self.data@ }
    }
}

impl BridgedFrameModel {
    /// The data must fit its one-byte length tag.
    pub open spec fn well_formed(self) -> bool {
        self.data.len() <= 255
    }
}

/// Big-endian bytes of a 32-bit value.
pub open spec fn spec_u32_bytes(v: u32) -> Seq<u8> {
    seq![
        ((v >> 24) & 0xFF) as u8,
        ((v >> 16) & 0xFF) as u8,
        ((v >> 8) & 0xFF) as u8,
        (v & 0xFF) as u8,
    ]
}

/// The 32-bit big-endian value at offset `i`.
pub open spec fn spec_dec_u32(d: Seq<u8>, i: int) -> u32 {
    ((d[i] as u32) << 24) | ((d[i + 1] as u32) << 16) | ((d[i + 2] as u32) << 8) | (d[i
        + 3] as u32)
}

/// Packing four bytes back together restores the value.
pub proof fn lemma_u32_bytes_roundtrip(v: u32)
    ensures
        ((((v >> 24) & 0xFF) as u8) as u32) << 24 | ((((v >> 16) & 0xFF) as u8) as u32) << 16 | ((((
        v >> 8) & 0xFF) as u8) as u32) << 8 | (((v & 0xFF) as u8) as u32) == v,
{
    assert((((((v >> 24) & 0xFF) as u8) as u32) << 24 | ((((v >> 16) & 0xFF) as u8) as u32) << 16
        | ((((v >> 8) & 0xFF) as u8) as u32) << 8 | (((v & 0xFF) as u8) as u32)) == v)
        by (bit_vector);
}

/// The wire form of a bridged frame.
pub open spec fn spec_encode_bridged(f: BridgedFrameModel) -> Seq<u8> {
    spec_u32_bytes(f.id) + spec_u32_bytes(f.timestamp) + seq![f.data.len() as u8] + f.data
}

/// Reads one bridged frame off the head of a byte sequence: the nine
/// header bytes and as many data bytes as the length tag names.  Trailing
/// bytes are ignored.
pub open spec fn spec_decode_bridged(d: Seq<u8>) -> Option<BridgedFrameModel> {
    if d.len() >= 9 && 9 + d[8] <= d.len() {
        Some(
            BridgedFrameModel {
                id: spec_dec_u32(d, 0),
                timestamp: spec_dec_u32(d, 4),
                data: d.subrange(9, 9 + d[8]),
            },
        )
    } else {
        None
    }
}

fn push_u32(out: &mut Vec<u8>, v: u32)
    ensures
        final(out)@ == old(out)@ + spec_u32_bytes(v),
{
    out.push(((v >> 24) & 0xFF) as u8);
    out.push(((v >> 16) & 0xFF) as u8);
    out.push(((v >> 8) & 0xFF) as u8);
    out.push((v & 0xFF) as u8);
    assert(final(out)@ =~= old(out)@ + spec_u32_bytes(v));
}

/// Serializes a bridged frame to its wire form.
pub fn encode_bridged(f: &BridgedFrame) -> (r: Vec<u8>)
    requires
        f@.well_formed(),
    ensures
        r@ == spec_encode_bridged(f@),
{
    let mut out: Vec<u8> = Vec::new();
    push_u32(&mut out, f.id);
    push_u32(&mut out, f.timestamp);
    out.push(f.data.len() as u8);
    let mut i: usize = 0;
    while i < f.data.len()
        invariant
            i <= f.data@.len(),
            out@ =~= spec_u32_bytes(f@.id) + spec_u32_bytes(f@.timestamp) + seq![
                f.data@.len() as u8,
            ] + f.data@.subrange(0, i as int),
        decreases f.data@.len() - i,
    {
        out.push(f.data[i]);
        i = i + 1;
    }
    proof {
        assert(f.data@.subrange(0, f.data@.len() as int) =~= f.data@);
        assert(out@ =~= spec_encode_bridged(f@));
    }
    out
}

fn dec_u32(d: &Vec<u8>, i: usize) -> (r: u32)
    requires
        i + 4 <= d@.len(),
    ensures
        r == spec_dec_u32(d@, i as int),
{
    let n = d.len();
    ((d[i] as u32) << 24u32) | ((d[i + 1] as u32) << 16u32) | ((d[i + 2] as u32) << 8u32) | (d[i
        + 3] as u32)
}

/// Parses one bridged frame off the head of a byte vector.
pub fn decode_bridged(d: &Vec<u8>) -> (r: Option<BridgedFrame>)
    ensures
        match r {
            Some(f) => spec_decode_bridged(d@) == Some(f@),
            None => spec_decode_bridged(d@) is None,
        },
{
    let n = d.len();
    if n < 9 {
        return None;
    }
    let dl = d[8] as usize;
    if n - 9 < dl {
        return None;
    }
    let mut data: Vec<u8> = Vec::new();
    let end = 9 + dl;
    let mut i: usize = 9;
    while i < end
        invariant
            9 <= i <= end,
            end == 9 + dl,
            end <= d@.len(),
            data@ =~= d@.subrange(9, i as int),
        decreases end - i,
    {
        data.push(d[i]);
        i = i + 1;
    }
    Some(BridgedFrame { id: dec_u32(d, 0), timestamp: dec_u32(d, 4), data })
}

/// Bridged-frame round trip: decoding an encoded well-formed frame gives
/// the frame back.
pub proof fn lemma_bridged_roundtrip(f: BridgedFrameModel)
    requires
        f.well_formed(),
    ensures
        spec_decode_bridged(spec_encode_bridged(f)) == Some(f),
{
    let d = spec_encode_bridged(f);
    assert(d.len() == 9 + f.data.len());
    assert(d[8] == f.data.len() as u8);
    assert(d[0] == ((f.id >> 24) & 0xFF) as u8);
    assert(d[1] == ((f.id >> 16) & 0xFF) as u8);
    assert(d[2] == ((f.id >> 8) & 0xFF) as u8);
    assert(d[3] == (f.id & 0xFF) as u8);
    assert(d[4] == ((f.timestamp >> 24) & 0xFF) as u8);
    assert(d[5] == ((f.timestamp >> 16) & 0xFF) as u8);
    assert(d[6] == ((f.timestamp >> 8) & 0xFF) as u8);
    assert(d[7] == (f.timestamp & 0xFF) as u8);
    lemma_u32_bytes_roundtrip(f.id);
    lemma_u32_bytes_roundtrip(f.timestamp);
    assert(spec_dec_u32(d, 0) == f.id);
    assert(spec_dec_u32(d, 4) == f.timestamp);
    assert(d.subrange(9, 9 + d[8]) =~= f.data);
}

// ---------------------------------------------------------------------------
// TCP record stream
// ---------------------------------------------------------------------------
/// The little-endian length prefix of a TCP record.
pub open spec fn spec_u16_le_bytes(v: u16) -> Seq<u8> {
    seq![(v % 256) as u8, (v / 256) as u8]
}

/// Wraps one bridged record for the TCP stream: two length bytes, then
/// the record.
pub open spec fn spec_encode_tcp_record(f: BridgedFrameModel) -> Seq<u8> {
    spec_u16_le_bytes(spec_encode_bridged(f).len() as u16) + spec_encode_bridged(f)
}

/// Serializes one bridged frame behind its TCP length prefix.
pub fn encode_tcp_record(f: &BridgedFrame) -> (r: Vec<u8>)
    requires
        f@.well_formed(),
    ensures
        r@ == spec_encode_tcp_record(f@),
{
    let body = encode_bridged(f);
    let len = body.len() as u16;
    let mut out: Vec<u8> = Vec::new();
    out.push((len % 256) as u8);
    out.push((len / 256) as u8);
    let mut i: usize = 0;
    while i < body.len()
        invariant
            i <= body@.len(),
            out@ =~= spec_u16_le_bytes(body@.len() as u16) + body@.subrange(0, i as int),
            body@.len() <= 264,
        decreases body@.len() - i,
    {
        out.push(body[i]);
        i = i + 1;
    }
    proof {
        assert(body@.subrange(0, body@.len() as int) =~= body@);
        assert(out@ =~= spec_encode_tcp_record(f@));
    }
    out
}

/// Accumulates the bytes a TCP client sends and cuts them into bridged
/// records: each record sits behind a two-byte little-endian length.
pub struct BridgeStreamParser {
    pub buf: Vec<u8>,
}

/// The length prefix at the head of the buffer, once two bytes are
/// present.
pub open spec fn spec_head_len(b: Seq<u8>) -> int {
    b[0] + 256 * b[1]
}

/// Whether a whole record sits at the head of the buffer.
pub open spec fn spec_record_ready(b: Seq<u8>) -> bool {
    b.len() >= 2 && b.len() - 2 >= spec_head_len(b)
}

impl BridgeStreamParser {
    pub fn new() -> (r: BridgeStreamParser)
        ensures
            r.buf@ == Seq::<u8>::empty(),
    {
        let r = BridgeStreamParser { buf: Vec::new() };
        proof {
            assert(r.buf@ =~= Seq::<u8>::empty());
        }
        r
    }

    /// Appends bytes read from the socket.
    pub fn push_bytes(&mut self, bytes: &Vec<u8>)
        ensures
            final(self).buf@ == old(self).buf@ + bytes@,
    {
        let mut i: usize = 0;
        while i < bytes.len()
            invariant
                i <= bytes@.len(),
                self.buf@ =~= old(self).buf@ + bytes@.subrange(0, i as int),
            decreases bytes@.len() - i,
        {
            self.buf.push(bytes[i]);
            i = i + 1;
        }
        proof {
            assert(bytes@.subrange(0, bytes@.len() as int) =~= bytes@);
        }
    }

    /// Cuts one record off the head of the buffer, once it is whole.
    /// The record's bytes leave the buffer either way; a record that does
    /// not parse as a bridged frame is fatal to the connection, as the
    /// error says.
    pub fn next_frame(&mut self) -> (r: Option<Result<BridgedFrame, GrappleError>>)
        ensures
            !spec_record_ready(old(self).buf@) ==> r is None && final(self).buf@ == old(
                self,
            ).buf@,
            spec_record_ready(old(self).buf@) ==> {
                let record = old(self).buf@.subrange(2, 2 + spec_head_len(old(self).buf@));
                &&& final(self).buf@ == old(self).buf@.subrange(
                    2 + spec_head_len(old(self).buf@),
                    old(self).buf@.len() as int,
                )
                &&& match spec_decode_bridged(record) {
                    Some(fm) => r matches Some(Ok(f)) && f@ == fm,
                    None => r matches Some(Err(e)) && e.kind == ErrorKind::ParseError,
                }
            },
    {
        if self.buf.len() < 2 {
            return None;
        }
        let msg_len = (self.buf[0] as usize) + 256 * (self.buf[1] as usize);
        if self.buf.len() - 2 < msg_len {
            return None;
        }
        let mut record: Vec<u8> = Vec::new();
        let end = 2 + msg_len;
        let mut i: usize = 2;
        while i < end
            invariant
                2 <= i <= end,
                end == 2 + msg_len,
                end <= self.buf@.len(),
                self.buf@ == old(self).buf@,
                record@ =~= self.buf@.subrange(2, i as int),
            decreases end - i,
        {
            record.push(self.buf[i]);
            i = i + 1;
        }
        let rest = self.buf.split_off(end);
        let mut tail = rest;
        core::mem::swap(&mut self.buf, &mut tail);
        proof {
            assert(self.buf@ =~= old(self).buf@.subrange(
                2 + spec_head_len(old(self).buf@),
                old(self).buf@.len() as int,
            ));
        }
        match decode_bridged(&record) {
            Some(f) => Some(Ok(f)),
            None => Some(
                Err(GrappleError::new(ErrorKind::ParseError, "invalid bridged record")),
            ),
        }
    }
}

/// The WebSocket port a configuration selects: a non-positive value
/// selects the default, anything else is taken modulo the 16-bit port
/// space.
pub fn effective_ws_port(port: i32) -> (r: u16)
    ensures
        port <= 0 ==> r == WS_DEFAULT_PORT,
        port > 0 ==> r == port % 0x10000,
{
    if port <= 0 {
        WS_DEFAULT_PORT
    } else {
        (port % 0x10000) as u16
    }
}

} // verus!
