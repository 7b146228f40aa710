use vstd::prelude::*;
use ccsds::framing::{Derandomizer, Integrity, IntegrityAlgorithm};
use crate::config::ASM_LEN;

verus! {

/// Length in bytes of a VCDU primary header.
pub const VCDU_HEADER_LEN: usize = 6;

/// Virtual channel id of fill frames.
pub const FILL_VCID: u16 = 63;

/// Length of one Reed-Solomon codeword.
pub const RS_CODEWORD_LEN: usize = 255;

/// Parity bytes of one Reed-Solomon codeword.
pub const RS_PARITY_LEN: usize = 32;

/// VCDU (frame) primary header.
#[derive(Clone, Copy, Debug, PartialEq, Eq, Structural)]
pub struct VCDUHeader {
    pub version: u8,
    pub scid: u16,
    pub vcid: u16,
    pub counter: u32,
    pub replay: bool,
    pub cycle: bool,
    pub counter_cycle: u8,
}

/// Outcome of Reed-Solomon decoding for a frame.
#[derive(Clone, Copy, Debug, PartialEq, Eq, Structural)]
pub enum RSState {
    NoErrors,
    Corrected,
    Uncorrectable,
    NotPerformed,
}

/// A decoded frame: its header, the Reed-Solomon outcome and the frame bytes
/// (header included, parity removed).
#[derive(Clone, Debug)]
pub struct Frame {
    pub header: VCDUHeader,
    pub rsstate: RSState,
    pub data: Vec<u8>,
}

/// The header held by the first six bytes of `b`: 2 bits version, 8 bits
/// spacecraft id, 6 bits virtual channel id, a 24-bit big-endian counter, then
/// replay flag, cycle flag and a 4-bit counter cycle.
pub open spec fn vcdu_header_of(b: Seq<u8>) -> VCDUHeader
    recommends
        b.len() >= 6,
{
    VCDUHeader {
        version: (b[0] / 64) as u8,
        scid: (((b[0] as int * 256 + b[1] as int) / 64) % 256) as u16,
        vcid: ((b[1] as int) % 64) as u16,
        counter: (b[2] as int * 65536 + b[3] as int * 256 + b[4] as int) as u32,
        replay: b[5] / 128 == 1,
        cycle: (b[5] / 64) % 2 == 1,
        counter_cycle: (b[5] % 16) as u8,
    }
}

impl VCDUHeader {
    /// Decodes a header from the first six bytes of `dat`; `None` where there are
    /// fewer.
    pub fn decode(dat: &[u8]) -> (r: Option<VCDUHeader>)
        ensures
            dat@.len() < 6 ==> r.is_none(),
            dat@.len() >= 6 ==> r == Some(vcdu_header_of(dat@)),
    {
        if dat.len() < VCDU_HEADER_LEN {
            return None;
        }
        let x: u16 = (dat[0] as u16) * 256 + dat[1] as u16;
        Some(VCDUHeader {
            version: dat[0] / 64,
            scid: (x / 64) % 256,
            vcid: (dat[1] % 64) as u16,
            counter: (dat[2] as u32) * 65536 + (dat[3] as u32) * 256 + dat[4] as u32,
            replay: dat[5] / 128 == 1,
            cycle: (dat[5] / 64) % 2 == 1,
            counter_cycle: dat[5] % 16,
        })
    }
}

/// The bytes of `b` with the CCSDS pseudo-noise sequence removed.
pub uninterp spec fn derandomized_of(b: Seq<u8>) -> Seq<u8>;

/// Relies on ccsds's `DefaultDerandomizer::derandomize`: each byte is XORed with
/// the fixed 255-byte CCSDS sequence, restarted at the start of the block, so
/// the length is kept and a second pass restores the input.
#[verifier::external_body]
fn derandomize(block: &[u8]) -> (r: Vec<u8>)
    ensures
        r@ == derandomized_of(block@),
        r@.len() == block@.len(),
        derandomized_of(r@) == block@,
{
    ccsds::framing::DefaultDerandomizer.derandomize(block)
}

/// Outcome and corrected frame bytes of CCSDS Reed-Solomon (255,223) decoding
/// of a codeblock with the given interleave.
pub uninterp spec fn reed_solomon_of(interleave: u8, block: Seq<u8>) -> (RSState, Seq<u8>);

/// Relies on ccsds's `DefaultReedSolomon::perform`: refuses a codeblock whose
/// length is not 255 times the interleave; else corrects each codeword, drops
/// 32 parity bytes per codeword and reports Ok, Corrected or Uncorrectable.
/// Of the header it reads only the virtual channel id, to skip fill frames,
/// which this caller never hands it.
#[verifier::external_body]
fn reed_solomon(interleave: u8, header: &VCDUHeader, block: &[u8]) -> (r: Option<(RSState, Vec<u8>)>)
    requires
        interleave >= 1,
        header.vcid != FILL_VCID,
    ensures
        r.is_none() <==> block@.len() != RS_CODEWORD_LEN * interleave,
        r matches Some((s, d)) ==> (s, d@) == reed_solomon_of(interleave, block@),
        r matches Some((s, d)) ==> d@.len() == block@.len() - RS_PARITY_LEN * interleave,
        r matches Some((s, d)) ==> s != RSState::NotPerformed,
{
    let h = ccsds::framing::VCDUHeader {
        version: header.version, scid: header.scid, vcid: header.vcid, counter: header.counter,
        replay: header.replay, cycle: header.cycle, counter_cycle: header.counter_cycle,
    };
    let (state, data) = ccsds::framing::DefaultReedSolomon::new(interleave).perform(&h, block).ok()?;
    let state = match state {
        Integrity::Ok | Integrity::NoErrors => RSState::NoErrors,
        Integrity::Corrected => RSState::Corrected,
        Integrity::Uncorrectable | Integrity::HasErrors => RSState::Uncorrectable,
        Integrity::Skipped => RSState::NotPerformed,
    };
    Some((state, data))
}

/// The block's bytes once pseudo-noise is removed, where it is applied.
pub open spec fn frame_bytes(block: Seq<u8>, pn: bool) -> Seq<u8> {
    if pn {
        derandomized_of(block)
    } else {
        block
    }
}

/// Whether a synchronized block can be decoded into a frame: it holds a header
/// and, with an interleave, has the codeblock length.
pub open spec fn decodable(block: Seq<u8>, interleave: Option<u8>) -> bool {
    block.len() >= VCDU_HEADER_LEN && match interleave {
        Some(i) => block.len() == RS_CODEWORD_LEN * i,
        None => true,
    }
}

/// `f` is the frame decoded from `block`: pseudo-noise removed where `pn`, then
/// Reed-Solomon applied where an interleave is given, and the header read from
/// the resulting bytes. With an interleave every frame, fill frames included,
/// is corrected and reports `NoErrors`, `Corrected` or `Uncorrectable`;
/// without one it reports `NotPerformed`.
pub open spec fn is_frame_of(f: Frame, block: Seq<u8>, pn: bool, interleave: Option<u8>) -> bool {
    let b = frame_bytes(block, pn);
    &&& f.header == vcdu_header_of(f.data@)
    &&& match interleave {
        Some(i) => {
            &&& (f.rsstate, f.data@) == reed_solomon_of(i, b)
            &&& f.data@.len() == b.len() - RS_PARITY_LEN * i
            &&& f.rsstate != RSState::NotPerformed
        },
        None => f.rsstate == RSState::NotPerformed && f.data@ == b,
    }
}

/// Length of a frame's bytes decoded from a block of `block_len` bytes.
pub open spec fn frame_data_len(block_len: int, interleave: Option<u8>) -> int {
    match interleave {
        Some(i) => block_len - RS_PARITY_LEN * i,
        None => block_len,
    }
}

/// Decodes one synchronized block (attached sync marker removed) into a frame:
/// removes pseudo-noise where `pn`, applies Reed-Solomon with the given
/// interleave, if any, and reads the VCDU header from the result. `None` where
/// the block is too short for a header or does not have the codeblock length;
/// such blocks are dropped from a stream.
pub fn decode_frame(block: &[u8], pn: bool, interleave: Option<u8>) -> (r: Option<Frame>)
    requires
        interleave matches Some(i) ==> i >= 1,
    ensures
        r.is_some() <==> decodable(block@, interleave),
        r matches Some(f) ==> is_frame_of(f, block@, pn, interleave),
        r matches Some(f) ==> f.data@.len() == frame_data_len(block@.len() as int, interleave),
{
    let bytes: Vec<u8> = if pn {
        derandomize(block)
    } else {
        crate::packet::prefix(block, block.len())
    };
    assert(bytes@ == frame_bytes(block@, pn) && bytes@.len() == block@.len());
    let received = match VCDUHeader::decode(bytes.as_slice()) {
        Some(h) => h,
        None => return None,
    };
    match interleave {
        None => Some(Frame { header: received, rsstate: RSState::NotPerformed, data: bytes }),
        Some(i) => {
            // fill frames are corrected too: they are handed over under a data
            // channel id, as only the id decides whether correction is skipped
            let channel = if received.vcid == FILL_VCID {
                VCDUHeader { vcid: 0, ..received }
            } else {
                received
            };
            match reed_solomon(i, &channel, bytes.as_slice()) {
                None => None,
                Some((rsstate, data)) => {
                    let header = VCDUHeader::decode(data.as_slice()).unwrap();
                    Some(Frame { header, rsstate, data })
                },
            }
        },
    }
}

/// Blocks found after each attached sync marker of `stream`, in order, each
/// with the position the synchronizer reports for it and the bit shift of its
/// marker.
pub uninterp spec fn synchronized_blocks_of(stream: Seq<u8>, block_len: usize) -> Seq<(usize, u8, Seq<u8>)>;

/// Relies on ccsds's `Synchronizer::scan` and `Synchronizer::block`, reading
/// from an in-memory stream, as its block iterator calls them: `scan` finds the
/// next standard marker (bit-shifted ones included) and reports its `Loc`
/// (`offset` and `bit`), `block` cuts `block_len` bytes after it. A block the
/// stream cannot fill is still cut, from what is left. For a byte-aligned
/// match, `offset` counts the bytes read through the marker, plus one: the
/// marker ends, and the block starts, at `offset - 1`.
#[verifier::external_body]
fn synchronized_blocks(stream: &[u8], block_len: usize) -> (r: Vec<(usize, u8, Vec<u8>)>)
    ensures
        blocks_view(r@) == synchronized_blocks_of(stream@, block_len),
        forall|i: int| 0 <= i < r@.len() ==> (#[trigger] r@[i]).2@.len() == block_len,
        forall|i: int|
            0 <= i < r@.len() && (#[trigger] r@[i]).1 == 0 && r@[i].0 + block_len <= stream@.len()
                + 1 ==> in_stream(blocks_view(r@)[i], stream@, block_len),
{
    let mut sync = ccsds::framing::Synchronizer::new(stream, block_len);
    std::iter::from_fn(|| {
        let loc = sync.scan().ok()??;
        let block = sync.block().ok()?;
        Some((loc.offset, loc.bit, block))
    }).collect()
}

/// The attached sync marker.
pub open spec fn sync_marker() -> Seq<u8> {
    seq![0x1au8, 0xcfu8, 0xfcu8, 0x1du8]
}

/// A byte-aligned block found at `b.0` is the `block_len` bytes of `stream`
/// that follow a marker ending there.
pub open spec fn in_stream(b: (usize, u8, Seq<u8>), stream: Seq<u8>, block_len: usize) -> bool {
    &&& b.0 >= 5
    &&& b.0 - 1 + block_len <= stream.len()
    &&& stream.subrange(b.0 - 5, b.0 - 1) == sync_marker()
    &&& b.2 == stream.subrange(b.0 - 1, b.0 - 1 + block_len)
}

pub open spec fn blocks_view(s: Seq<(usize, u8, Vec<u8>)>) -> Seq<(usize, u8, Seq<u8>)> {
    s.map_values(|t: (usize, u8, Vec<u8>)| (t.0, t.1, t.2@))
}

/// A block lies wholly within a stream of `stream_len` bytes. The synchronizer
/// reports one past the block's first byte for a byte-aligned marker; a
/// bit-shifted block spans one byte more, from the byte before `offset`.
pub open spec fn block_complete(offset: usize, bit: u8, block_len: usize, stream_len: usize) -> bool {
    offset as int - 1 + block_len + (if bit == 0 { 0int } else { 1int }) <= stream_len
}

/// A block that follows a byte-aligned marker (an exact match), lies wholly
/// within the stream and decodes into a frame.
pub open spec fn usable(
    b: (usize, u8, Seq<u8>),
    stream_len: usize,
    block_len: usize,
    pn: bool,
    interleave: Option<u8>,
) -> bool {
    b.1 == 0 && block_complete(b.0, b.1, block_len, stream_len) && decodable(b.2, interleave)
}

/// The usable blocks, in order.
pub open spec fn kept_blocks(
    blocks: Seq<(usize, u8, Seq<u8>)>,
    stream_len: usize,
    block_len: usize,
    pn: bool,
    interleave: Option<u8>,
) -> Seq<(usize, u8, Seq<u8>)> {
    blocks.filter(|b: (usize, u8, Seq<u8>)| usable(b, stream_len, block_len, pn, interleave))
}

/// Decodes the blocks a synchronizer found in a stream of `stream_len` bytes:
/// a block behind a bit-shifted marker, or one that runs past the end of the
/// stream, is discarded, the others are
/// decoded as `decode_frame` does, and those that do not decode are dropped.
pub fn decode_blocks(
    blocks: &Vec<(usize, u8, Vec<u8>)>,
    stream_len: usize,
    block_len: usize,
    pn: bool,
    interleave: Option<u8>,
) -> (r: Vec<Frame>)
    requires
        interleave matches Some(i) ==> i >= 1,
    ensures
        r@.len() == kept_blocks(blocks_view(blocks@), stream_len, block_len, pn, interleave).len(),
        forall|k: int|
            0 <= k < r@.len() ==> is_frame_of(
                #[trigger] r@[k],
                kept_blocks(blocks_view(blocks@), stream_len, block_len, pn, interleave)[k].2,
                pn,
                interleave,
            ),
        (forall|j: int| 0 <= j < blocks@.len() ==> (#[trigger] blocks@[j]).2@.len() == block_len)
            ==> forall|k: int|
            0 <= k < r@.len() ==> (#[trigger] r@[k]).data@.len() == frame_data_len(
                block_len as int,
                interleave,
            ),
        (forall|j: int| 0 <= j < blocks@.len() ==> (#[trigger] blocks@[j]).2@.len() == block_len)
            && block_len < VCDU_HEADER_LEN && interleave is None ==> r@.len() == 0,
{
    let ghost all = blocks_view(blocks@);
    let ghost pred = |b: (usize, u8, Seq<u8>)| usable(b, stream_len, block_len, pn, interleave);
    let ghost same_len = forall|j: int| 0 <= j < blocks@.len() ==> (#[trigger] blocks@[j]).2@.len() == block_len;
    let mut out: Vec<Frame> = Vec::new();
    let mut i: usize = 0;
    while i < blocks.len()
        invariant
            interleave matches Some(il) ==> il >= 1,
            all == blocks_view(blocks@),
            pred == (|b: (usize, u8, Seq<u8>)| usable(b, stream_len, block_len, pn, interleave)),
            same_len == (forall|j: int| 0 <= j < blocks@.len() ==> (#[trigger] blocks@[j]).2@.len() == block_len),
            i <= blocks@.len(),
            out@.len() == all.subrange(0, i as int).filter(pred).len(),
            forall|k: int|
                0 <= k < out@.len() ==> is_frame_of(
                    #[trigger] out@[k],
                    all.subrange(0, i as int).filter(pred)[k].2,
                    pn,
                    interleave,
                ),
            same_len ==> forall|k: int|
                0 <= k < out@.len() ==> (#[trigger] out@[k]).data@.len() == frame_data_len(
                    block_len as int,
                    interleave,
                ),
            same_len && block_len < VCDU_HEADER_LEN && interleave is None ==> out@.len() == 0,
        decreases blocks@.len() - i,
    {
        proof {
            assert(all.subrange(0, i as int + 1) == all.subrange(0, i as int).push(all[i as int]));
            all.subrange(0, i as int).lemma_filter_push(all[i as int], pred);
        }
        let b = &blocks[i];
        assert(all[i as int] == (b.0, b.1, b.2@));
        let shifted: u128 = if b.1 == 0 {
            0
        } else {
            1
        };
        let complete = (b.0 as u128) + (block_len as u128) + shifted <= (stream_len as u128) + 1;
        assert(complete == block_complete(b.0, b.1, block_len, stream_len));
        if b.1 == 0 && complete {
            match decode_frame(b.2.as_slice(), pn, interleave) {
                Some(f) => {
                    out.push(f);
                },
                None => {},
            }
        }
        i = i + 1;
    }
    proof {
        assert(all.subrange(0, all.len() as int) == all);
    }
    out
}

/// Decodes the frames of an in-memory CADU stream: synchronizes on the attached
/// sync marker, cuts `block_len` bytes after each, and decodes the blocks as
/// `decode_blocks` does.
pub fn decode_frames(stream: &[u8], block_len: usize, pn: bool, interleave: Option<u8>) -> (r: Vec<Frame>)
    requires
        interleave matches Some(i) ==> i >= 1,
    ensures
        r@.len() == kept_blocks(
            synchronized_blocks_of(stream@, block_len),
            stream@.len() as usize,
            block_len,
            pn,
            interleave,
        ).len(),
        forall|k: int|
            0 <= k < r@.len() ==> is_frame_of(
                #[trigger] r@[k],
                kept_blocks(
                    synchronized_blocks_of(stream@, block_len),
                    stream@.len() as usize,
                    block_len,
                    pn,
                    interleave,
                )[k].2,
                pn,
                interleave,
            ),
        forall|k: int|
            0 <= k < r@.len() ==> (#[trigger] r@[k]).data@.len() == frame_data_len(
                block_len as int,
                interleave,
            ),
        block_len < VCDU_HEADER_LEN && interleave is None ==> r@.len() == 0,
        forall|k: int|
            0 <= k < r@.len() ==> in_stream(
                #[trigger] kept_blocks(
                    synchronized_blocks_of(stream@, block_len),
                    stream@.len() as usize,
                    block_len,
                    pn,
                    interleave,
                )[k],
                stream@,
                block_len,
            ),
{
    let blocks = synchronized_blocks(stream, block_len);
    let r = decode_blocks(&blocks, stream.len(), block_len, pn, interleave);
    proof {
        let all = blocks_view(blocks@);
        let pred = |b: (usize, u8, Seq<u8>)| usable(b, stream@.len() as usize, block_len, pn, interleave);
        let kept = kept_blocks(all, stream@.len() as usize, block_len, pn, interleave);
        assert(kept == all.filter(pred));
        assert forall|k: int| 0 <= k < kept.len() implies in_stream(#[trigger] kept[k], stream@, block_len) by {
            all.lemma_filter_pred(pred, k);
            all.lemma_filter_contains_rev(pred, kept[k]);
            assert(all.filter(pred).contains(kept[k]));
            let j = choose|j: int| 0 <= j < all.len() && all[j] == kept[k];
            assert(blocks@[j].1 == 0 && blocks@[j].0 + block_len <= stream@.len() + 1);
        }
    }
    r
}

} // verus!
