//! Pure encoding and decoding of one wire frame; no I/O, no state.
//!
//! A frame is `marker ++ command bytes ++ length field ++ payload ++
//! checksum`. Outbound frames (host to device) open with a four-byte
//! marker followed by two command bytes and a length field counting the
//! payload alone. Inbound frames (device to host) open with a distinct
//! two-byte marker followed by one command byte and a length field
//! counting payload plus the two checksum bytes. The length field is one
//! byte holding the value verbatim when it is below 128, else two bytes
//! with the high bit of the first set and the remaining 15 bits holding
//! the value, most-significant byte first. The checksum is the CRC16 of
//! every preceding byte, stored big-endian.

use vstd::prelude::*;

use crate::crc::calculate_crc16;
use crate::crc::spec_crc16;

verus! {

/// The four-byte marker opening an outbound frame.
pub open spec fn spec_outbound_marker() -> Seq<u8> {
    seq![0xC9u8, 0x36u8, 0xB8u8, 0x47u8]
}

/// The two-byte marker opening an inbound frame.
pub open spec fn spec_inbound_marker() -> Seq<u8> {
    seq![0xAAu8, 0x55u8]
}

/// A 16-bit word read from two bytes, most-significant byte first.
pub open spec fn spec_be16(hi: u8, lo: u8) -> u16 {
    ((hi as u16) << 8) | (lo as u16)
}

/// A 16-bit word written as two bytes, most-significant byte first.
pub open spec fn spec_be16_bytes(x: u16) -> Seq<u8> {
    seq![(x >> 8) as u8, (x & 0xFF) as u8]
}

/// The length field for the value `n`: one verbatim byte below 128, else
/// two bytes with the high bit of the first set as the extension flag.
pub open spec fn spec_len_field(n: u16) -> Seq<u8>
    recommends
        n < 0x8000,
{
    if n < 128 {
        seq![n as u8]
    } else {
        seq![((n >> 8) | 0x80) as u8, (n & 0xFF) as u8]
    }
}

/// The length value carried by an extended (two-byte) length field.
pub open spec fn spec_ext_len(b0: u8, b1: u8) -> u16 {
    (((b0 & 0x7F) as u16) << 8) | (b1 as u16)
}

/// An encoded outbound frame: marker, both command bytes, the length
/// field for the payload length, the payload, then the big-endian CRC16
/// of everything preceding it.
pub open spec fn spec_encode(cmd1: u8, cmd2: u8, payload: Seq<u8>) -> Seq<u8>
    recommends
        payload.len() < 0x8000,
{
    let body = spec_outbound_marker() + seq![cmd1, cmd2] + spec_len_field(payload.len() as u16)
        + payload;
    body + spec_be16_bytes(spec_crc16(body))
}

/// Everything of an inbound frame before its checksum: marker, one
/// command byte, the length field counting payload plus checksum, and
/// the payload.
pub open spec fn spec_reply_body(cmd: u8, payload: Seq<u8>) -> Seq<u8>
    recommends
        payload.len() + 2 < 0x8000,
{
    spec_inbound_marker() + seq![cmd] + spec_len_field((payload.len() + 2) as u16) + payload
}

/// An inbound frame as the device emits it: the body above followed by
/// its big-endian CRC16.
pub open spec fn spec_reply_frame(cmd: u8, payload: Seq<u8>) -> Seq<u8>
    recommends
        payload.len() + 2 < 0x8000,
{
    spec_reply_body(cmd, payload) + spec_be16_bytes(spec_crc16(spec_reply_body(cmd, payload)))
}

/// The header size of an inbound frame whose length field carries `n`.
pub open spec fn spec_reply_header(n: int) -> int {
    if n < 128 {
        4
    } else {
        5
    }
}

/// What a buffer holds at its front: not yet enough bytes to decide, no
/// frame (bad marker, impossible length, or checksum mismatch), or one
/// whole checksum-validated frame.
pub enum SpecFrame {
    Incomplete,
    Invalid,
    Valid { header: int, total: int, payload: Seq<u8> },
}

/// The rest of the decode once the length value and header size are
/// known: a length below 2 cannot cover the checksum bytes it counts, a
/// buffer shorter than the whole frame is incomplete, and otherwise the
/// stored checksum decides.
pub open spec fn spec_decode_at(buf: Seq<u8>, len: int, header: int) -> SpecFrame {
    let total = header + len;
    if len < 2 {
        SpecFrame::Invalid
    } else if buf.len() < total {
        SpecFrame::Incomplete
    } else if spec_crc16(buf.subrange(0, total - 2)) == spec_be16(
        buf[total - 2],
        buf[total - 1],
    ) {
        SpecFrame::Valid { header, total, payload: buf.subrange(header, total - 2) }
    } else {
        SpecFrame::Invalid
    }
}

/// Decoding a buffer against the inbound frame layout: four bytes are
/// needed to read the length field safely, the inbound marker must open
/// the buffer, and the length field at offset 3 fixes the frame's
/// extent.
pub open spec fn spec_decode(buf: Seq<u8>) -> SpecFrame {
    if buf.len() < 4 {
        SpecFrame::Incomplete
    } else if !(buf[0] == 0xAA && buf[1] == 0x55) {
        SpecFrame::Invalid
    } else if buf[3] & 0x80 != 0 {
        if buf.len() < 5 {
            SpecFrame::Incomplete
        } else {
            spec_decode_at(buf, spec_ext_len(buf[3], buf[4]) as int, 5)
        }
    } else {
        spec_decode_at(buf, buf[3] as int, 4)
    }
}

/// An inbound frame is as long as its header and the value of its
/// length field together, and it opens with the inbound marker.
pub proof fn lemma_reply_frame_len(cmd: u8, payload: Seq<u8>)
    requires
        payload.len() + 2 < 0x8000,
    ensures
        spec_reply_frame(cmd, payload).len() == spec_reply_header(payload.len() + 2 as int)
            + payload.len() + 2,
        spec_reply_frame(cmd, payload)[0] == 0xAA,
        spec_reply_frame(cmd, payload)[1] == 0x55,
{
    let n16 = (payload.len() + 2) as u16;
    let body = spec_reply_body(cmd, payload);
    let frame = spec_reply_frame(cmd, payload);
    assert(body.len() == 3 + spec_len_field(n16).len() + payload.len());
    assert(frame.len() == body.len() + 2);
    assert(frame[0] == spec_inbound_marker()[0]);
    assert(frame[1] == spec_inbound_marker()[1]);
}

/// How decoding treats any buffer that starts with the body of an
/// inbound frame: the bytes where the frame keeps its checksum decide
/// between accepting exactly that frame's payload and rejecting the
/// buffer. Corrupted checksums, intact frames, and frames with trailing
/// bytes behind them are all instances.
pub proof fn lemma_decode_reply_prefix(cmd: u8, payload: Seq<u8>, buf: Seq<u8>)
    requires
        payload.len() + 2 < 0x8000,
        spec_reply_frame(cmd, payload).len() <= buf.len(),
        forall|i: int|
            0 <= i < spec_reply_frame(cmd, payload).len() - 2 ==> buf[i] == spec_reply_frame(
                cmd,
                payload,
            )[i],
    ensures
        ({
            let n = payload.len() + 2;
            let header = spec_reply_header(n as int);
            let total = header + n;
            let crc = spec_crc16(spec_reply_body(cmd, payload));
            &&& (spec_be16(buf[total - 2], buf[total - 1]) == crc ==> spec_decode(buf)
                == (SpecFrame::Valid { header, total, payload }))
            &&& (spec_be16(buf[total - 2], buf[total - 1]) != crc ==> spec_decode(buf)
                is Invalid)
        }),
{
    let n = payload.len() + 2;
    let n16 = n as u16;
    let body = spec_reply_body(cmd, payload);
    let frame = spec_reply_frame(cmd, payload);
    let header = spec_reply_header(n as int);
    let total = header + n;
    assert(body.len() == 3 + spec_len_field(n16).len() + payload.len());
    assert(frame.len() == body.len() + 2);
    assert(buf[0] == 0xAA && buf[1] == 0x55);
    if n16 < 128 {
        assert(frame[3] == n16 as u8);
        assert((n16 as u8) & 0x80 == 0 && (n16 as u8) as u16 == n16 && n16 >= 2) by (bit_vector)
            requires
                2 <= n16 < 128,
        ;
        assert(spec_decode(buf) == spec_decode_at(buf, n as int, 4));
    } else {
        assert(frame[3] == ((n16 >> 8) | 0x80) as u8);
        assert(frame[4] == (n16 & 0xFF) as u8);
        assert((((n16 >> 8) | 0x80) as u8) & 0x80 != 0 && spec_ext_len(
            ((n16 >> 8) | 0x80) as u8,
            (n16 & 0xFF) as u8,
        ) == n16) by (bit_vector)
            requires
                128 <= n16 < 0x8000,
        ;
        assert(spec_decode(buf) == spec_decode_at(buf, n as int, 5));
    }
    assert(buf.subrange(0, total - 2) =~= body);
    assert(buf.subrange(header, total - 2) =~= payload);
}

/// Round trip of the inbound framing: a frame assembled around a payload
/// decodes back to exactly that payload, whatever the payload length
/// within the 15 bits the length field offers.
pub proof fn lemma_reply_round_trip(cmd: u8, payload: Seq<u8>)
    requires
        payload.len() + 2 < 0x8000,
    ensures
        ({
            let n = payload.len() + 2;
            let header = spec_reply_header(n as int);
            spec_decode(spec_reply_frame(cmd, payload)) == (SpecFrame::Valid {
                header,
                total: header + n,
                payload,
            })
        }),
{
    let frame = spec_reply_frame(cmd, payload);
    let body = spec_reply_body(cmd, payload);
    let crc = spec_crc16(body);
    let total = frame.len() as int;
    lemma_decode_reply_prefix(cmd, payload, frame);
    assert(frame[total - 2] == (crc >> 8) as u8 && frame[total - 1] == (crc & 0xFF) as u8);
    assert(spec_be16((crc >> 8) as u8, (crc & 0xFF) as u8) == crc) by (bit_vector);
}

/// Decoding expects the inbound marker; a buffer opening with the
/// outbound marker is rejected outright. The two directions use
/// distinct magic sequences on purpose.
pub proof fn lemma_decode_rejects_outbound(cmd1: u8, cmd2: u8, payload: Seq<u8>)
    requires
        payload.len() < 0x8000,
    ensures
        spec_decode(spec_encode(cmd1, cmd2, payload)) is Invalid,
{
    let frame = spec_encode(cmd1, cmd2, payload);
    assert(frame.len() >= 4);
    assert(frame[0] == 0xC9);
}

/// Flipping any single bit in the two checksum bytes of a complete
/// buffered frame makes decoding reject it, whatever follows the frame
/// in the buffer.
#[verifier::rlimit(100)]
#[verifier::spinoff_prover]
pub proof fn lemma_checksum_bit_flip_rejected(cmd: u8, payload: Seq<u8>, j: int, b: u8, rest: Seq<u8>)
    requires
        payload.len() + 2 < 0x8000,
        b < 8,
        spec_reply_frame(cmd, payload).len() - 2 <= j < spec_reply_frame(cmd, payload).len(),
    ensures
        ({
            let frame = spec_reply_frame(cmd, payload);
            spec_decode(frame.update(j, (frame[j] ^ (1u8 << b)) as u8) + rest) is Invalid
        }),
{
    let frame = spec_reply_frame(cmd, payload);
    let body = spec_reply_body(cmd, payload);
    let crc = spec_crc16(body);
    let total = frame.len() as int;
    let corrupted = frame.update(j, (frame[j] ^ (1u8 << b)) as u8) + rest;
    assert(corrupted.len() >= frame.len());
    assert forall|i: int| 0 <= i < frame.len() - 2 implies corrupted[i] == frame[i] by {
        assert(frame.update(j, (frame[j] ^ (1u8 << b)) as u8)[i] == frame[i]);
    }
    lemma_decode_reply_prefix(cmd, payload, corrupted);
    assert(frame[total - 2] == (crc >> 8) as u8 && frame[total - 1] == (crc & 0xFF) as u8);
    let hi = (crc >> 8) as u8;
    let lo = (crc & 0xFF) as u8;
    if j == total - 2 {
        assert(corrupted[total - 2] == (hi ^ (1u8 << b)) as u8);
        assert(corrupted[total - 1] == lo);
        assert(spec_be16((hi ^ (1u8 << b)) as u8, lo) != spec_be16(hi, lo)) by (bit_vector)
            requires
                b < 8,
        ;
        assert(spec_be16(hi, lo) == crc) by (bit_vector)
            requires
                hi == (crc >> 8) as u8 && lo == (crc & 0xFF) as u8,
        ;
    } else {
        assert(corrupted[total - 2] == hi);
        assert(corrupted[total - 1] == (lo ^ (1u8 << b)) as u8);
        assert(spec_be16(hi, (lo ^ (1u8 << b)) as u8) != spec_be16(hi, lo)) by (bit_vector)
            requires
                b < 8,
        ;
        assert(spec_be16(hi, lo) == crc) by (bit_vector)
            requires
                hi == (crc >> 8) as u8 && lo == (crc & 0xFF) as u8,
        ;
    }
}

/// A strict prefix of an inbound frame never decodes; it is always
/// reported as incomplete, never rejected.
pub proof fn lemma_reply_prefix_incomplete(cmd: u8, payload: Seq<u8>, k: int)
    requires
        payload.len() + 2 < 0x8000,
        0 <= k < spec_reply_frame(cmd, payload).len(),
    ensures
        spec_decode(spec_reply_frame(cmd, payload).take(k)) is Incomplete,
{
    let n = payload.len() + 2;
    let n16 = n as u16;
    let frame = spec_reply_frame(cmd, payload);
    let body = spec_reply_body(cmd, payload);
    let part = frame.take(k);
    let header = spec_reply_header(n as int);
    let total = header + n;
    assert(body.len() == 3 + spec_len_field(n16).len() + payload.len());
    assert(frame.len() == body.len() + 2);
    if k < 4 {
        assert(spec_decode(part) is Incomplete);
    } else {
        assert(part[0] == 0xAA && part[1] == 0x55);
        if n16 < 128 {
            assert(part[3] == n16 as u8);
            assert((n16 as u8) & 0x80 == 0 && (n16 as u8) as u16 == n16 && n16 >= 2) by (
            bit_vector)
                requires
                    2 <= n16 < 128,
            ;
            assert(part.len() < total);
            assert(spec_decode(part) == spec_decode_at(part, n as int, 4));
        } else {
            assert(part[3] == ((n16 >> 8) | 0x80) as u8);
            assert((((n16 >> 8) | 0x80) as u8) & 0x80 != 0) by (bit_vector);
            if k == 4 {
                assert(spec_decode(part) is Incomplete);
            } else {
                assert(part[4] == (n16 & 0xFF) as u8);
                assert(spec_ext_len(((n16 >> 8) | 0x80) as u8, (n16 & 0xFF) as u8) == n16 && n16
                    >= 2) by (bit_vector)
                    requires
                        128 <= n16 < 0x8000,
                ;
                assert(part.len() < total);
                assert(spec_decode(part) == spec_decode_at(part, n as int, 5));
            }
        }
    }
}

/// The three-way outcome of decoding a buffer. Callers must distinguish
/// "not enough bytes yet" from "these bytes are garbage".
#[derive(Debug, PartialEq, Eq)]
pub enum DecodeResult {
    Incomplete,
    Invalid,
    Valid { header_size: usize, total_len: usize, payload: Vec<u8> },
}

/// The frame codec. Encoding builds outbound frames; decoding validates
/// inbound ones.
pub struct Protocol;

impl Protocol {
    /// Encodes one outbound frame around `data`.
    pub fn encode_command(cmd1: u8, cmd2: u8, data: &[u8]) -> (r: Vec<u8>)
        requires
            data@.len() < 0x8000,
        ensures
            r@ == spec_encode(cmd1, cmd2, data@),
    {
        let mut packet: Vec<u8> = Vec::new();
        packet.push(0xC9);
        packet.push(0x36);
        packet.push(0xB8);
        packet.push(0x47);
        packet.push(cmd1);
        packet.push(cmd2);
        let n = data.len() as u16;
        if n < 128 {
            packet.push(n as u8);
        } else {
            proof {
                assert((n >> 8) | 0x80 < 256 && n & 0xFF < 256) by (bit_vector);
            }
            packet.push(((n >> 8) | 0x80) as u8);
            packet.push((n & 0xFF) as u8);
        }
        packet.extend_from_slice(data);
        assert(packet@ =~= spec_outbound_marker() + seq![cmd1, cmd2] + spec_len_field(n) + data@);
        let crc = calculate_crc16(packet.as_slice());
        proof {
            assert(crc >> 8 < 256 && crc & 0xFF < 256) by (bit_vector);
        }
        packet.push((crc >> 8) as u8);
        packet.push((crc & 0xFF) as u8);
        assert(packet@ =~= spec_encode(cmd1, cmd2, data@));
        packet
    }

    /// Encodes one frame in the inbound layout, as the device frames its
    /// replies; the scripted transports of the test suite are built on
    /// it.
    pub fn encode_reply(cmd: u8, payload: &[u8]) -> (r: Vec<u8>)
        requires
            payload@.len() + 2 < 0x8000,
        ensures
            r@ == spec_reply_frame(cmd, payload@),
    {
        let mut packet: Vec<u8> = Vec::new();
        packet.push(0xAA);
        packet.push(0x55);
        packet.push(cmd);
        let n = (payload.len() + 2) as u16;
        if n < 128 {
            packet.push(n as u8);
        } else {
            proof {
                assert((n >> 8) | 0x80 < 256 && n & 0xFF < 256) by (bit_vector);
            }
            packet.push(((n >> 8) | 0x80) as u8);
            packet.push((n & 0xFF) as u8);
        }
        packet.extend_from_slice(payload);
        assert(packet@ =~= spec_inbound_marker() + seq![cmd] + spec_len_field(n) + payload@);
        let crc = calculate_crc16(packet.as_slice());
        proof {
            assert(crc >> 8 < 256 && crc & 0xFF < 256) by (bit_vector);
        }
        packet.push((crc >> 8) as u8);
        packet.push((crc & 0xFF) as u8);
        assert(packet@ =~= spec_reply_frame(cmd, payload@));
        packet
    }

    /// Decodes the frame at the front of `buffer` against the inbound
    /// layout, validating its checksum.
    pub fn decode_response(buffer: &[u8]) -> (r: DecodeResult)
        ensures
            (r is Incomplete) == (spec_decode(buffer@) is Incomplete),
            (r is Invalid) == (spec_decode(buffer@) is Invalid),
            r matches DecodeResult::Valid { header_size, total_len, payload } ==> spec_decode(
                buffer@,
            ) == (SpecFrame::Valid {
                header: header_size as int,
                total: total_len as int,
                payload: payload@,
            }),
    {
        if buffer.len() < 4 {
            return DecodeResult::Incomplete;
        }
        if !(buffer[0] == 0xAA && buffer[1] == 0x55) {
            return DecodeResult::Invalid;
        }
        let b3 = buffer[3];
        let len: usize;
        let header_size: usize;
        if b3 & 0x80 != 0 {
            if buffer.len() < 5 {
                return DecodeResult::Incomplete;
            }
            let hi = (b3 & 0x7F) as u16;
            let b4 = buffer[4];
            proof {
                assert((((b3 & 0x7F) as u16) << 8) | (b4 as u16) < 0x8000u16) by (bit_vector);
            }
            let len16: u16 = (hi << 8) | (b4 as u16);
            len = len16 as usize;
            header_size = 5;
        } else {
            len = b3 as usize;
            header_size = 4;
        }
        if len < 2 {
            return DecodeResult::Invalid;
        }
        let total = header_size + len;
        if buffer.len() < total {
            return DecodeResult::Incomplete;
        }
        let stored: u16 = ((buffer[total - 2] as u16) << 8) | (buffer[total - 1] as u16);
        let computed = calculate_crc16(&buffer[0..total - 2]);
        if stored != computed {
            return DecodeResult::Invalid;
        }
        let mut payload: Vec<u8> = Vec::new();
        payload.extend_from_slice(&buffer[header_size..total - 2]);
        assert(payload@ =~= buffer@.subrange(header_size as int, total - 2));
        assert(spec_decode(buffer@) == (SpecFrame::Valid {
            header: header_size as int,
            total: total as int,
            payload: buffer@.subrange(header_size as int, total - 2),
        }));
        DecodeResult::Valid { header_size, total_len: total, payload }
    }
}

} // verus!
