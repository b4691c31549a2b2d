//! Stateful reassembly of frames out of arbitrarily chunked reads.
//!
//! The accumulator grows by whatever each read delivers (possibly
//! nothing) and is drained by one rule set: wait below four bytes, skip
//! noise ahead of the first inbound marker, discard everything when no
//! marker is present at all, skip exactly the two marker bytes of a
//! frame whose checksum fails (so a genuine frame right behind a
//! corrupted one is not lost), and emit the payload of every validated
//! frame. Every step either emits, strictly shrinks the accumulator, or
//! ends the pass; the reassembler cannot stall on a persistent bad byte.

use vstd::prelude::*;

use crate::codec::DecodeResult;
use crate::codec::Protocol;
use crate::codec::SpecFrame;
use crate::codec::lemma_checksum_bit_flip_rejected;
use crate::codec::lemma_reply_frame_len;
use crate::codec::lemma_reply_prefix_incomplete;
use crate::codec::lemma_reply_round_trip;
use crate::codec::spec_decode;
use crate::codec::spec_reply_frame;

verus! {

/// The index of the first inbound marker in `buf`, or `buf.len()` when
/// no marker occurs.
pub open spec fn spec_first_marker(buf: Seq<u8>) -> int
    decreases buf.len(),
{
    if buf.len() < 2 {
        buf.len() as int
    } else if buf[0] == 0xAA && buf[1] == 0x55 {
        0
    } else {
        1 + spec_first_marker(buf.skip(1))
    }
}

/// What the first-marker index means: it is in bounds, a marker stands
/// there whenever it is below the length, and no marker stands anywhere
/// before it.
pub proof fn lemma_first_marker(buf: Seq<u8>)
    ensures
        0 <= spec_first_marker(buf) <= buf.len(),
        spec_first_marker(buf) < buf.len() ==> spec_first_marker(buf) + 2 <= buf.len() && buf[
            spec_first_marker(buf)
        ] == 0xAA && buf[spec_first_marker(buf) + 1] == 0x55,
        forall|i: int|
            0 <= i < spec_first_marker(buf) && i + 2 <= buf.len() ==> !(#[trigger] buf[i] == 0xAA
                && buf[i + 1] == 0x55),
    decreases buf.len(),
{
    if buf.len() < 2 {
    } else if buf[0] == 0xAA && buf[1] == 0x55 {
    } else {
        lemma_first_marker(buf.skip(1));
        let k = spec_first_marker(buf);
        assert(forall|j: int| 0 <= j < buf.skip(1).len() ==> buf.skip(1)[j] == buf[j + 1]);
        assert forall|i: int|
            0 <= i < k && i + 2 <= buf.len() implies !(#[trigger] buf[i] == 0xAA && buf[i + 1]
            == 0x55) by {
            if i > 0 {
                assert(buf.skip(1)[i - 1] == buf[i]);
                assert(buf.skip(1)[i] == buf[i + 1]);
            }
        }
    }
}

/// The payload of the frame at the front of `buf`, when one decodes.
pub open spec fn spec_valid_payload(buf: Seq<u8>) -> Option<Seq<u8>> {
    match spec_decode(buf) {
        SpecFrame::Valid { payload, .. } => Some(payload),
        _ => None,
    }
}

/// Whether some buffer decodes to exactly this payload: everything the
/// reassembler ever emits has passed through a checksum-validated frame.
pub open spec fn spec_emittable(p: Seq<u8>) -> bool {
    exists|buf: Seq<u8>| #[trigger] spec_valid_payload(buf) == Some(p)
}

/// A frame that decodes fits inside its buffer, and its payload is the
/// slice between header and checksum.
pub proof fn lemma_decode_valid_bounds(buf: Seq<u8>)
    ensures
        spec_decode(buf) matches SpecFrame::Valid { header, total, payload } ==> {
            &&& 4 <= header <= 5
            &&& header + 2 <= total <= buf.len()
            &&& payload == buf.subrange(header, total - 2)
        },
{
}

/// One full drain pass over an accumulated buffer: the payloads emitted,
/// in order, and the bytes the accumulator retains afterwards. Below
/// four bytes nothing can be decided, so the accumulator waits; from
/// four on the scan takes over.
pub open spec fn spec_drain(buf: Seq<u8>) -> (Seq<Seq<u8>>, Seq<u8>)
    decreases buf.len(), 1int,
{
    if buf.len() < 4 {
        (Seq::empty(), buf)
    } else {
        spec_scan(buf)
    }
}

/// The scan phase of a drain pass: noise ahead of the first marker is
/// discarded (and the pass resumes at the length guard), a markerless
/// accumulator is discarded whole, and a marker-aligned front is
/// decoded. A frame whose checksum fails costs exactly its two marker
/// bytes, after which the scan resumes here rather than at the length
/// guard.
pub open spec fn spec_scan(buf: Seq<u8>) -> (Seq<Seq<u8>>, Seq<u8>)
    decreases buf.len(), 0int,
{
    let k = spec_first_marker(buf);
    if k >= buf.len() - 1 {
        (Seq::empty(), Seq::empty())
    } else if k > 0 {
        spec_drain(buf.skip(k))
    } else {
        match spec_decode(buf) {
            SpecFrame::Incomplete => (Seq::empty(), buf),
            SpecFrame::Invalid => spec_scan(buf.skip(2)),
            SpecFrame::Valid { header, total, payload } => {
                let rest = spec_drain(buf.skip(total));
                (seq![payload] + rest.0, rest.1)
            },
        }
    }
}

/// The first-marker index is the position of any marker that has no
/// marker ahead of it.
pub proof fn lemma_first_marker_at(buf: Seq<u8>, m: int)
    requires
        0 <= m,
        m + 2 <= buf.len(),
        buf[m] == 0xAA && buf[m + 1] == 0x55,
        forall|i: int| 0 <= i < m ==> !(#[trigger] buf[i] == 0xAA && buf[i + 1] == 0x55),
    ensures
        spec_first_marker(buf) == m,
{
    lemma_first_marker(buf);
    let k = spec_first_marker(buf);
    if k < m {
        assert(!(buf[k] == 0xAA && buf[k + 1] == 0x55));
    }
    if k > m {
        assert(!(buf[m] == 0xAA && buf[m + 1] == 0x55));
    }
}

/// A complete inbound frame alone in the accumulator drains to exactly
/// one emission, its payload, and leaves nothing behind.
pub proof fn lemma_complete_frame_emits_once(cmd: u8, payload: Seq<u8>)
    requires
        payload.len() + 2 < 0x8000,
    ensures
        spec_drain(spec_reply_frame(cmd, payload)) == (seq![payload], Seq::<u8>::empty()),
{
    let frame = spec_reply_frame(cmd, payload);
    let total = frame.len() as int;
    lemma_reply_frame_len(cmd, payload);
    lemma_reply_round_trip(cmd, payload);
    assert(frame[0] == 0xAA && frame[1] == 0x55);
    assert(spec_first_marker(frame) == 0);
    assert(frame.skip(total) =~= Seq::<u8>::empty());
    assert(spec_drain(Seq::<u8>::empty()) == (Seq::<Seq<u8>>::empty(), Seq::<u8>::empty()));
    assert(spec_drain(frame.skip(total)) == (Seq::<Seq<u8>>::empty(), Seq::<u8>::empty()));
    assert(spec_drain(frame).0 =~= seq![payload]);
}

/// A strict prefix of an inbound frame drains to no emission at all and
/// is retained unchanged: however a frame is split across reads, nothing
/// is emitted before its last byte arrives.
pub proof fn lemma_partial_frame_pends(cmd: u8, payload: Seq<u8>, k: int)
    requires
        payload.len() + 2 < 0x8000,
        0 <= k < spec_reply_frame(cmd, payload).len(),
    ensures
        spec_drain(spec_reply_frame(cmd, payload).take(k)) == (
            Seq::<Seq<u8>>::empty(),
            spec_reply_frame(cmd, payload).take(k),
        ),
{
    let frame = spec_reply_frame(cmd, payload);
    let part = frame.take(k);
    if k < 4 {
    } else {
        assert(part[0] == 0xAA && part[1] == 0x55);
        assert(spec_first_marker(part) == 0);
        lemma_reply_frame_len(cmd, payload);
        lemma_reply_prefix_incomplete(cmd, payload, k);
    }
}

/// A single garbage byte ahead of a complete frame is discarded and the
/// frame still drains to exactly its one payload, whatever the byte.
pub proof fn lemma_garbage_prefix_skipped(g: u8, cmd: u8, payload: Seq<u8>)
    requires
        payload.len() + 2 < 0x8000,
    ensures
        spec_drain(seq![g] + spec_reply_frame(cmd, payload)) == (seq![payload], Seq::<u8>::empty()),
{
    let frame = spec_reply_frame(cmd, payload);
    let buf = seq![g] + frame;
    lemma_reply_frame_len(cmd, payload);
    assert(buf[1] == 0xAA && buf[2] == 0x55);
    assert(!(buf[0] == 0xAA && buf[1] == 0x55));
    lemma_first_marker_at(buf, 1);
    assert(buf.skip(1) =~= frame);
    lemma_complete_frame_emits_once(cmd, payload);
}

/// A frame rejected at the front of the accumulator costs exactly the
/// two marker bytes before the scan resumes.
pub proof fn lemma_invalid_frame_resync(buf: Seq<u8>)
    requires
        buf.len() >= 4,
        spec_first_marker(buf) == 0,
        spec_decode(buf) is Invalid,
    ensures
        spec_drain(buf) == spec_scan(buf.skip(2)),
{
}

/// Flipping any one bit of a buffered frame's checksum makes the drain
/// reject that frame, discard its two marker bytes, and still decode a
/// well-formed frame standing right behind it — provided no byte pair
/// among the corrupted remains mimics the inbound marker.
pub proof fn lemma_corrupted_then_valid_frame(
    cmd1: u8,
    first_payload: Seq<u8>,
    j: int,
    b: u8,
    cmd2: u8,
    second_payload: Seq<u8>,
)
    requires
        first_payload.len() + 2 < 0x8000,
        second_payload.len() + 2 < 0x8000,
        b < 8,
        spec_reply_frame(cmd1, first_payload).len() - 2 <= j < spec_reply_frame(cmd1, first_payload).len(),
        ({
            let frame1 = spec_reply_frame(cmd1, first_payload);
            let corrupted = frame1.update(j, (frame1[j] ^ (1u8 << b)) as u8);
            let buf = corrupted + spec_reply_frame(cmd2, second_payload);
            forall|i: int|
                2 <= i < frame1.len() ==> !(#[trigger] buf[i] == 0xAA && buf[i + 1] == 0x55)
        }),
    ensures
        ({
            let frame1 = spec_reply_frame(cmd1, first_payload);
            let corrupted = frame1.update(j, (frame1[j] ^ (1u8 << b)) as u8);
            spec_drain(corrupted + spec_reply_frame(cmd2, second_payload)) == (seq![second_payload], Seq::<u8>::empty())
        }),
{
    let frame1 = spec_reply_frame(cmd1, first_payload);
    let frame2 = spec_reply_frame(cmd2, second_payload);
    let total = frame1.len() as int;
    let corrupted = frame1.update(j, (frame1[j] ^ (1u8 << b)) as u8);
    let buf = corrupted + frame2;
    lemma_reply_frame_len(cmd1, first_payload);
    lemma_reply_frame_len(cmd2, second_payload);
    assert(buf[0] == 0xAA && buf[1] == 0x55);
    assert(spec_first_marker(buf) == 0);
    lemma_checksum_bit_flip_rejected(cmd1, first_payload, j, b, frame2);
    assert(spec_decode(buf) is Invalid);
    lemma_invalid_frame_resync(buf);
    let rem = buf.skip(2);
    assert(rem[total - 2] == frame2[0] && rem[total - 1] == frame2[1]);
    assert(frame2[0] == 0xAA && frame2[1] == 0x55);
    assert forall|i: int| 0 <= i < total - 2 implies !(#[trigger] rem[i] == 0xAA && rem[i + 1]
        == 0x55) by {
        assert(rem[i] == buf[i + 2]);
        assert(rem[i + 1] == buf[i + 3]);
    }
    lemma_first_marker_at(rem, total - 2);
    assert(rem.skip(total - 2) =~= frame2);
    lemma_complete_frame_emits_once(cmd2, second_payload);
    assert(spec_scan(rem) == spec_drain(frame2));
}

/// Finds the first inbound marker in the accumulator, returning the
/// buffer length when none occurs.
fn find_first_marker(buf: &Vec<u8>) -> (k: usize)
    ensures
        k as int == spec_first_marker(buf@),
{
    proof {
        lemma_first_marker(buf@);
    }
    let n = buf.len();
    if n < 2 {
        return n;
    }
    let mut i: usize = 0;
    while i < n - 1
        invariant
            2 <= n == buf@.len(),
            i <= n - 1,
            forall|t: int| 0 <= t < i ==> !(#[trigger] buf@[t] == 0xAA && buf@[t + 1] == 0x55),
        decreases n - i,
    {
        if buf[i] == 0xAA && buf[i + 1] == 0x55 {
            proof {
                lemma_first_marker(buf@);
                let k = spec_first_marker(buf@);
                if k < i {
                    assert(buf@[k] == 0xAA && buf@[k + 1] == 0x55);
                }
            }
            return i;
        }
        i = i + 1;
    }
    proof {
        lemma_first_marker(buf@);
        let k = spec_first_marker(buf@);
        if k < n {
            assert(!(buf@[k] == 0xAA && buf@[k + 1] == 0x55));
        }
    }
    n
}

/// Discards the first `k` bytes of `buf`.
fn drop_front(buf: &mut Vec<u8>, k: usize)
    requires
        k <= old(buf)@.len(),
    ensures
        final(buf)@ == old(buf)@.skip(k as int),
{
    let tail = buf.split_off(k);
    *buf = tail;
    assert(final(buf)@ =~= old(buf)@.skip(k as int));
}

/// The accumulator that turns a sequence of arbitrarily chunked reads
/// into a sequence of validated payloads.
pub struct StreamReassembler {
    buf: Vec<u8>,
}

impl View for StreamReassembler {
    type V = Seq<u8>;

    closed spec fn view(&self) -> Seq<u8> {
        self.buf@
    }
}

impl StreamReassembler {
    /// A reassembler with an empty accumulator.
    pub fn new() -> (r: Self)
        ensures
            r@ == Seq::<u8>::empty(),
    {
        let r = StreamReassembler { buf: Vec::new() };
        proof {
            assert(r@ =~= Seq::<u8>::empty());
        }
        r
    }

    /// Appends one read's bytes and drains the accumulator: the returned
    /// payloads and the retained bytes are exactly what one drain pass
    /// over the accumulated bytes yields, and every returned payload
    /// came out of a checksum-validated frame.
    pub fn feed(&mut self, chunk: &[u8]) -> (out: Vec<Vec<u8>>)
        ensures
            out.deep_view() == spec_drain(old(self)@ + chunk@).0,
            final(self)@ == spec_drain(old(self)@ + chunk@).1,
            forall|i: int|
                0 <= i < out.deep_view().len() ==> spec_emittable(#[trigger] out.deep_view()[i]),
    {
        self.buf.extend_from_slice(chunk);
        proof {
            assert(self.buf@ == old(self)@ + chunk@);
        }
        let ghost start = self.buf@;
        let mut out: Vec<Vec<u8>> = Vec::new();
        proof {
            assert(out.deep_view() =~= Seq::<Seq<u8>>::empty());
        }
        let mut scanning = false;
        let mut done = false;
        while !done
            invariant
                ({
                    let target = if scanning {
                        spec_scan(self.buf@)
                    } else {
                        spec_drain(self.buf@)
                    };
                    &&& spec_drain(start).0 == out.deep_view() + target.0
                    &&& spec_drain(start).1 == target.1
                    &&& (done ==> target == (Seq::<Seq<u8>>::empty(), self.buf@))
                }),
                forall|i: int|
                    0 <= i < out.deep_view().len() ==> spec_emittable(
                        #[trigger] out.deep_view()[i],
                    ),
            decreases
                    self.buf@.len(),
                    (if scanning { 0int } else { 1int }),
                    (if done { 0int } else { 1int }),
        {
            if !scanning {
                if self.buf.len() < 4 {
                    done = true;
                } else {
                    proof {
                        assert(spec_drain(self.buf@) == spec_scan(self.buf@));
                    }
                    scanning = true;
                }
            } else {
                let k = find_first_marker(&self.buf);
                proof {
                    lemma_first_marker(self.buf@);
                }
                if self.buf.len() < 2 || k >= self.buf.len() - 1 {
                    proof {
                        assert(spec_scan(self.buf@) == (Seq::<Seq<u8>>::empty(), Seq::<
                            u8,
                        >::empty()));
                    }
                    self.buf.clear();
                    done = true;
                } else if k > 0 {
                    proof {
                        assert(spec_scan(self.buf@) == spec_drain(self.buf@.skip(k as int)));
                    }
                    drop_front(&mut self.buf, k);
                    scanning = false;
                } else {
                    let ghost cur = self.buf@;
                    match Protocol::decode_response(self.buf.as_slice()) {
                        DecodeResult::Incomplete => {
                            proof {
                                assert(spec_scan(cur) == (Seq::<Seq<u8>>::empty(), cur));
                            }
                            done = true;
                        },
                        DecodeResult::Invalid => {
                            proof {
                                assert(spec_scan(cur) == spec_scan(cur.skip(2)));
                            }
                            drop_front(&mut self.buf, 2);
                        },
                        DecodeResult::Valid { header_size, total_len, payload } => {
                            proof {
                                lemma_decode_valid_bounds(cur);
                                assert(spec_valid_payload(cur) == Some(payload@));
                                assert(spec_scan(cur).0 == seq![payload@] + spec_drain(
                                    cur.skip(total_len as int),
                                ).0);
                                assert(spec_scan(cur).1 == spec_drain(
                                    cur.skip(total_len as int),
                                ).1);
                            }
                            let ghost out_before = out.deep_view();
                            out.push(payload);
                            proof {
                                assert(out.deep_view() =~~= out_before.push(
                                    spec_valid_payload(cur).unwrap(),
                                ));
                                assert(spec_drain(start).0 == out.deep_view() + spec_drain(
                                    cur.skip(total_len as int),
                                ).0);
                            }
                            drop_front(&mut self.buf, total_len);
                            scanning = false;
                        },
                    }
                }
            }
        }
        out
    }

    /// How many bytes the accumulator currently retains.
    pub fn buffered_len(&self) -> (n: usize)
        ensures
            n == self@.len(),
    {
        self.buf.len()
    }
}

} // verus!
