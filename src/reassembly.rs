use vstd::prelude::*;
use crate::counters::{gap, missing_frames, FRAME_COUNTER_MODULUS};
use crate::frame::{Frame, RSState, VCDUHeader, FILL_VCID, VCDU_HEADER_LEN};
use crate::packet::{packet_of, prefix, primary_header_of, DecodedPacket, Packet, PRIMARY_HEADER_LEN};

verus! {

/// Number of virtual channel ids (6 bits).
pub const NUM_VCIDS: usize = 64;

/// Length of the multiplexing (M_PDU) header that starts each packet zone.
pub const MPDU_HEADER_LEN: usize = 2;

/// A frame header whose fields lie within their wire widths.
pub open spec fn header_wf(h: VCDUHeader) -> bool {
    h.vcid < NUM_VCIDS && h.counter < FRAME_COUNTER_MODULUS
}

/// Counter of the last of the first `i` headers on virtual channel `vcid`.
pub open spec fn last_counter(hs: Seq<VCDUHeader>, i: int, vcid: u16) -> Option<u32>
    decreases i,
{
    if i <= 0 {
        None
    } else if hs[i - 1].vcid == vcid {
        Some(hs[i - 1].counter)
    } else {
        last_counter(hs, i - 1, vcid)
    }
}

/// Frames missing just before header `i` on its virtual channel: none for fill
/// frames and for the first frame of a channel.
pub open spec fn frame_gap(hs: Seq<VCDUHeader>, i: int) -> int {
    if hs[i].vcid == FILL_VCID {
        0
    } else {
        match last_counter(hs, i, hs[i].vcid) {
            Some(l) => gap(hs[i].counter as int, l as int, FRAME_COUNTER_MODULUS as int),
            None => 0,
        }
    }
}

pub open spec fn headers_of(frames: Seq<Frame>) -> Seq<VCDUHeader> {
    frames.map_values(|f: Frame| f.header)
}

proof fn lemma_last_counter_wf(hs: Seq<VCDUHeader>, i: int, vcid: u16)
    requires
        0 <= i <= hs.len(),
        forall|j: int| 0 <= j < hs.len() ==> header_wf(#[trigger] hs[j]),
    ensures
        last_counter(hs, i, vcid) matches Some(l) ==> l < FRAME_COUNTER_MODULUS,
    decreases i,
{
    if i > 0 {
        lemma_last_counter_wf(hs, i - 1, vcid);
    }
}

/// The number of frames missing before each frame on its virtual channel.
pub fn frame_gaps(frames: &Vec<Frame>) -> (r: Vec<u32>)
    requires
        forall|i: int| 0 <= i < frames@.len() ==> header_wf(#[trigger] frames@[i].header),
    ensures
        r@.len() == frames@.len(),
        forall|i: int| 0 <= i < r@.len() ==> #[trigger] r@[i] as int == frame_gap(headers_of(frames@), i),
{
    let ghost hs = headers_of(frames@);
    let mut last: Vec<Option<u32>> = Vec::new();
    let mut v: usize = 0;
    while v < NUM_VCIDS
        invariant
            v <= NUM_VCIDS,
            last@.len() == v,
            forall|c: int| 0 <= c < v ==> #[trigger] last@[c] is None,
        decreases NUM_VCIDS - v,
    {
        last.push(None);
        v = v + 1;
    }
    let mut out: Vec<u32> = Vec::new();
    let mut i: usize = 0;
    while i < frames.len()
        invariant
            hs == headers_of(frames@),
            forall|j: int| 0 <= j < frames@.len() ==> header_wf(#[trigger] frames@[j].header),
            i <= frames@.len(),
            last@.len() == NUM_VCIDS,
            forall|c: int| 0 <= c < NUM_VCIDS ==> #[trigger] last@[c] == last_counter(hs, i as int, c as u16),
            out@.len() == i,
            forall|k: int| 0 <= k < i ==> #[trigger] out@[k] as int == frame_gap(hs, k),
        decreases frames@.len() - i,
    {
        let h = frames[i].header;
        proof {
            assert(hs[i as int] == h);
            assert forall|j: int| 0 <= j < hs.len() implies header_wf(#[trigger] hs[j]) by {
                assert(hs[j] == frames@[j].header);
            }
            lemma_last_counter_wf(hs, i as int, h.vcid);
            assert(last@[h.vcid as int] == last_counter(hs, i as int, h.vcid));
        }
        let g: u32 = if h.vcid == FILL_VCID {
            0
        } else {
            match last[h.vcid as usize] {
                Some(l) => missing_frames(h.counter, l),
                None => 0,
            }
        };
        out.push(g);
        last.set(h.vcid as usize, Some(h.counter));
        proof {
            assert forall|c: int| 0 <= c < NUM_VCIDS implies #[trigger] last@[c] == last_counter(
                hs,
                i as int + 1,
                c as u16,
            ) by {
                if c == h.vcid as int {
                } else {
                    assert(hs[i as int].vcid != c as u16);
                }
            }
        }
        i = i + 1;
    }
    out
}

/// A frame as handed to reassembly: header, whether Reed-Solomon found it
/// uncorrectable, frames missing before it on its channel, and its bytes.
pub type FrameInput = (VCDUHeader, bool, u32, Vec<u8>);

pub open spec fn input_view(s: Seq<FrameInput>) -> Seq<(VCDUHeader, bool, u32, Seq<u8>)> {
    s.map_values(|t: FrameInput| (t.0, t.1, t.2, t.3@))
}

/// Packets, as spacecraft id, virtual channel id and packet bytes, that the
/// CCSDS reassembly finds in the packet zones of the given frames.
pub uninterp spec fn reassembled_of(
    frames: Seq<(VCDUHeader, bool, u32, Seq<u8>)>,
    izone_len: usize,
    trailer_len: usize,
) -> Seq<(u16, u16, Seq<u8>)>;

/// Relies on ccsds's `framing::decode_framed_packets`: skips fill frames, resets
/// a channel on an uncorrectable frame or a gap, reads the packet zone between
/// insert zone and trailer, and yields each whole packet (version 0, type 0) it
/// finds, with the ids of the frame that completed it.
#[verifier::external_body]
fn reassemble(frames: Vec<FrameInput>, izone_len: usize, trailer_len: usize) -> (r: Vec<(u16, u16, Vec<u8>)>)
    requires
        forall|i: int|
            0 <= i < frames@.len() ==> (#[trigger] frames@[i]).3@.len() >= VCDU_HEADER_LEN + izone_len
                + trailer_len + MPDU_HEADER_LEN,
    ensures
        r@.len() == reassembled_of(input_view(frames@), izone_len, trailer_len).len(),
        forall|i: int|
            0 <= i < r@.len() ==> ((#[trigger] r@[i]).0, r@[i].1, r@[i].2@) == reassembled_of(
                input_view(frames@),
                izone_len,
                trailer_len,
            )[i],
        forall|i: int|
            0 <= i < r@.len() ==> packet_of((#[trigger] r@[i]).2@) == Some(
                (primary_header_of(r@[i].2@), r@[i].2@),
            ),
        forall|i: int|
            0 <= i < r@.len() ==> primary_header_of((#[trigger] r@[i]).2@).version == 0
                && primary_header_of(r@[i].2@).type_flag == 0,
        forall|i: int|
            0 <= i < r@.len() ==> exists|j: int|
                0 <= j < frames@.len() && (#[trigger] frames@[j]).0.scid == (#[trigger] r@[i]).0
                    && frames@[j].0.vcid == r@[i].1,
{
    let frames = frames.into_iter().map(|(h, uncorrectable, missing, data)| ccsds::framing::DecodedFrame {
        frame: ccsds::framing::Frame { data, header: ccsds::framing::VCDUHeader { version: h.version,
            scid: h.scid, vcid: h.vcid, counter: h.counter, replay: h.replay, cycle: h.cycle,
            counter_cycle: h.counter_cycle } },
        missing,
        integrity: uncorrectable.then_some(ccsds::framing::Integrity::Uncorrectable),
    });
    ccsds::framing::decode_framed_packets(frames, izone_len, trailer_len)
        .map(|p| (p.scid, p.vcid, p.packet.data)).collect()
}

/// A frame takes part in reassembly for spacecraft `scid`: its header is
/// well-formed, it comes from that spacecraft, and it holds a header, the
/// insert zone, the trailer and a multiplexing header.
pub open spec fn frame_fits(f: Frame, scid: u16, izone_len: usize, trailer_len: usize) -> bool {
    &&& header_wf(f.header)
    &&& f.header.scid == scid
    &&& f.data@.len() >= VCDU_HEADER_LEN + izone_len + trailer_len + MPDU_HEADER_LEN
}

pub open spec fn kept_frames(frames: Seq<Frame>, scid: u16, izone_len: usize, trailer_len: usize) -> Seq<Frame> {
    frames.filter(|f: Frame| frame_fits(f, scid, izone_len, trailer_len))
}

/// What reassembly is handed for the kept frames: each with its
/// uncorrectable flag and the gap before it on its channel.
pub open spec fn reassembly_input(kept: Seq<Frame>) -> Seq<(VCDUHeader, bool, u32, Seq<u8>)> {
    Seq::new(
        kept.len(),
        |i: int|
            (
                kept[i].header,
                kept[i].rsstate == RSState::Uncorrectable,
                frame_gap(headers_of(kept), i) as u32,
                kept[i].data@,
            ),
    )
}

/// Packets (spacecraft id, virtual channel id, bytes) reassembled from `frames`.
pub open spec fn framed_packets_of(
    frames: Seq<Frame>,
    scid: u16,
    izone_len: usize,
    trailer_len: usize,
) -> Seq<(u16, u16, Seq<u8>)> {
    reassembled_of(
        reassembly_input(kept_frames(frames, scid, izone_len, trailer_len)),
        izone_len,
        trailer_len,
    )
}

/// Some frame of spacecraft `scid` among `frames` is on virtual channel `vcid`.
pub open spec fn from_channel(frames: Seq<Frame>, scid: u16, vcid: u16) -> bool {
    exists|j: int| 0 <= j < frames.len() && (#[trigger] frames[j]).header.scid == scid && frames[j].header.vcid == vcid
}

/// Copy of a frame.
fn copy_frame(f: &Frame) -> (r: Frame)
    ensures
        r.header == f.header,
        r.rsstate == f.rsstate,
        r.data@ == f.data@,
{
    Frame { header: f.header, rsstate: f.rsstate, data: prefix(f.data.as_slice(), f.data.len()) }
}

/// Reassembles the space packets carried by the frames of spacecraft `scid`:
/// frames of other spacecraft, and frames too short to hold a packet zone
/// between `izone_len` and `trailer_len` bytes, are dropped; the gap before each
/// frame on its channel is counted; packets are then rebuilt per virtual
/// channel across frame boundaries.
pub fn decode_framed_packets(frames: &Vec<Frame>, scid: u16, izone_len: usize, trailer_len: usize) -> (r: Vec<DecodedPacket>)
    ensures
        r@.len() == framed_packets_of(frames@, scid, izone_len, trailer_len).len(),
        forall|i: int|
            0 <= i < r@.len() ==> {
                let p = framed_packets_of(frames@, scid, izone_len, trailer_len)[i];
                &&& (#[trigger] r@[i]).scid == p.0
                &&& r@[i].vcid == p.1
                &&& r@[i].packet.data@ == p.2
                &&& r@[i].packet.header == primary_header_of(p.2)
            },
        forall|i: int|
            0 <= i < r@.len() ==> {
                &&& (#[trigger] r@[i]).scid == scid
                &&& r@[i].packet.data@.len() == PRIMARY_HEADER_LEN + r@[i].packet.header.len_minus1 + 1
                &&& r@[i].packet.header.version == 0
                &&& r@[i].packet.header.type_flag == 0
                &&& from_channel(frames@, scid, r@[i].vcid)
            },
{
    let ghost pred = |f: Frame| frame_fits(f, scid, izone_len, trailer_len);
    let ghost all = kept_frames(frames@, scid, izone_len, trailer_len);
    let mut kept: Vec<Frame> = Vec::new();
    let mut i: usize = 0;
    while i < frames.len()
        invariant
            i <= frames@.len(),
            pred == (|f: Frame| frame_fits(f, scid, izone_len, trailer_len)),
            kept@.len() == frames@.subrange(0, i as int).filter(pred).len(),
            forall|k: int|
                0 <= k < kept@.len() ==> {
                    let g = frames@.subrange(0, i as int).filter(pred)[k];
                    &&& (#[trigger] kept@[k]).header == g.header
                    &&& kept@[k].rsstate == g.rsstate
                    &&& kept@[k].data@ == g.data@
                    &&& frame_fits(kept@[k], scid, izone_len, trailer_len)
                },
        decreases frames@.len() - i,
    {
        proof {
            assert(frames@.subrange(0, i as int + 1) == frames@.subrange(0, i as int).push(frames@[i as int]));
            frames@.subrange(0, i as int).lemma_filter_push(frames@[i as int], pred);
        }
        let fits = frames[i].header.vcid < NUM_VCIDS as u16
            && frames[i].header.counter < FRAME_COUNTER_MODULUS
            && frames[i].header.scid == scid
            && izone_len <= frames[i].data.len()
            && trailer_len <= frames[i].data.len() - izone_len
            && VCDU_HEADER_LEN + MPDU_HEADER_LEN <= frames[i].data.len() - izone_len - trailer_len;
        assert(fits == pred(frames@[i as int]));
        if fits {
            let f = copy_frame(&frames[i]);
            kept.push(f);
        }
        i = i + 1;
    }
    proof {
        assert(frames@.subrange(0, frames@.len() as int) == frames@);
    }
    let gaps = frame_gaps(&kept);
    proof {
        assert(headers_of(kept@) =~= headers_of(all));
    }
    let mut input: Vec<FrameInput> = Vec::new();
    let mut j: usize = 0;
    while j < kept.len()
        invariant
            j <= kept@.len(),
            gaps@.len() == kept@.len(),
            all.len() == kept@.len(),
            headers_of(kept@) == headers_of(all),
            forall|i: int| 0 <= i < gaps@.len() ==> #[trigger] gaps@[i] as int == frame_gap(headers_of(kept@), i),
            forall|k: int|
                0 <= k < kept@.len() ==> {
                    &&& (#[trigger] kept@[k]).header == all[k].header
                    &&& kept@[k].rsstate == all[k].rsstate
                    &&& kept@[k].data@ == all[k].data@
                    &&& frame_fits(kept@[k], scid, izone_len, trailer_len)
                },
            input@.len() == j,
            forall|k: int| 0 <= k < j ==> #[trigger] input_view(input@)[k] == reassembly_input(all)[k],
        decreases kept@.len() - j,
    {
        let f = &kept[j];
        let t: FrameInput = (
            f.header,
            f.rsstate == RSState::Uncorrectable,
            gaps[j],
            prefix(f.data.as_slice(), f.data.len()),
        );
        let ghost before = input@;
        input.push(t);
        proof {
            assert(input_view(input@)[j as int] == reassembly_input(all)[j as int]);
            assert forall|k: int| 0 <= k < j + 1 implies #[trigger] input_view(input@)[k]
                == reassembly_input(all)[k] by {
                if k < j {
                    assert(input@[k] == before[k]);
                    assert(input_view(input@)[k] == input_view(before)[k]);
                }
            }
        }
        j = j + 1;
    }
    proof {
        assert(input_view(input@) =~= reassembly_input(all));
        assert forall|i: int| 0 <= i < input@.len() implies (#[trigger] input@[i]).3@.len()
            >= VCDU_HEADER_LEN + izone_len + trailer_len + MPDU_HEADER_LEN by {
            assert(input_view(input@)[i] == reassembly_input(all)[i]);
            assert(kept@[i].data@ == all[i].data@);
            assert(frame_fits(kept@[i], scid, izone_len, trailer_len));
        }
    }
    let ghost given = input@;
    proof {
        assert forall|j: int| 0 <= j < given.len() implies (#[trigger] given[j]).0.scid == scid
            && from_channel(frames@, scid, given[j].0.vcid) by {
            assert(input_view(input@)[j] == reassembly_input(all)[j]);
            assert(frame_fits(kept@[j], scid, izone_len, trailer_len));
            assert(all == frames@.filter(pred));
            assert(all.contains(all[j]));
            frames@.lemma_filter_contains_rev(pred, all[j]);
            let m = choose|m: int| 0 <= m < frames@.len() && frames@[m] == all[j];
            assert(frames@[m].header == given[j].0);
        }
    }
    let out = reassemble(input, izone_len, trailer_len);
    proof {
        assert forall|i: int| 0 <= i < out@.len() implies (#[trigger] out@[i]).0 == scid
            && from_channel(frames@, scid, out@[i].1) by {
            let j = choose|j: int|
                0 <= j < given.len() && (#[trigger] given[j]).0.scid == out@[i].0 && given[j].0.vcid
                    == out@[i].1;
            assert(given[j].0.scid == scid);
        }
    }
    let mut r: Vec<DecodedPacket> = Vec::new();
    let mut k: usize = 0;
    while k < out.len()
        invariant
            k <= out@.len(),
            out@.len() == framed_packets_of(frames@, scid, izone_len, trailer_len).len(),
            forall|i: int|
                0 <= i < out@.len() ==> ((#[trigger] out@[i]).0, out@[i].1, out@[i].2@)
                    == framed_packets_of(frames@, scid, izone_len, trailer_len)[i],
            forall|i: int|
                0 <= i < out@.len() ==> packet_of((#[trigger] out@[i]).2@) == Some(
                    (primary_header_of(out@[i].2@), out@[i].2@),
                ),
            forall|i: int|
                0 <= i < out@.len() ==> primary_header_of((#[trigger] out@[i]).2@).version == 0
                    && primary_header_of(out@[i].2@).type_flag == 0,
            forall|i: int| 0 <= i < out@.len() ==> (#[trigger] out@[i]).0 == scid && from_channel(frames@, scid, out@[i].1),
            r@.len() == k,
            forall|i: int|
                0 <= i < k ==> {
                    &&& (#[trigger] r@[i]).scid == scid
                    &&& r@[i].packet.data@.len() == PRIMARY_HEADER_LEN + r@[i].packet.header.len_minus1 + 1
                    &&& r@[i].packet.header.version == 0
                    &&& r@[i].packet.header.type_flag == 0
                    &&& from_channel(frames@, scid, r@[i].vcid)
                },
            forall|i: int|
                0 <= i < k ==> {
                    let p = framed_packets_of(frames@, scid, izone_len, trailer_len)[i];
                    &&& (#[trigger] r@[i]).scid == p.0
                    &&& r@[i].vcid == p.1
                    &&& r@[i].packet.data@ == p.2
                    &&& r@[i].packet.header == primary_header_of(p.2)
                },
        decreases out@.len() - k,
    {
        let t = &out[k];
        assert(packet_of(t.2@) == Some((primary_header_of(t.2@), t.2@)));
        let packet = Packet::decode(t.2.as_slice()).unwrap();
        r.push(DecodedPacket { scid: t.0, vcid: t.1, packet });
        k = k + 1;
    }
    r
}

} // verus!
