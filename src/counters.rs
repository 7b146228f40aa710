use vstd::prelude::*;

verus! {

/// Modulus of the 14-bit packet sequence counter.
pub const PACKET_SEQ_MODULUS: u16 = 16384;

/// Modulus of the 24-bit frame counter.
pub const FRAME_COUNTER_MODULUS: u32 = 16777216;

/// Number of counter values strictly between `last` and `cur`, counting forward
/// with wrap-around at `modulus`.
pub open spec fn gap(cur: int, last: int, modulus: int) -> int {
    (cur - last - 1) % modulus
}

/// Number of packets missing between the sequence id `last` and the next seen
/// sequence id `cur` (14-bit counters). Equal values count as a full cycle
/// less one.
pub fn missing_packets(cur: u16, last: u16) -> (r: u16)
    requires
        cur < PACKET_SEQ_MODULUS,
        last < PACKET_SEQ_MODULUS,
    ensures
        r as int == gap(cur as int, last as int, PACKET_SEQ_MODULUS as int),
{
    if cur > last {
        cur - last - 1
    } else {
        cur + (PACKET_SEQ_MODULUS - 1 - last)
    }
}

/// Number of frames missing between the frame counter `last` and the next seen
/// counter `cur` (24-bit counters). Equal values count as a full cycle less one.
pub fn missing_frames(cur: u32, last: u32) -> (r: u32)
    requires
        cur < FRAME_COUNTER_MODULUS,
        last < FRAME_COUNTER_MODULUS,
    ensures
        r as int == gap(cur as int, last as int, FRAME_COUNTER_MODULUS as int),
{
    if cur > last {
        cur - last - 1
    } else {
        cur + (FRAME_COUNTER_MODULUS - 1 - last)
    }
}

/// A counter value that directly follows its predecessor, wrap-around included,
/// leaves no gap.
pub proof fn lemma_successor_has_no_gap(last: int, modulus: int)
    requires
        modulus > 0,
        0 <= last < modulus,
    ensures
        gap((last + 1) % modulus, last, modulus) == 0,
{
    if last + 1 == modulus {
        assert((last + 1) % modulus == 0) by (nonlinear_arith)
            requires
                last + 1 == modulus,
                modulus > 0,
        ;
        assert((0 - last - 1) % modulus == 0) by (nonlinear_arith)
            requires
                last + 1 == modulus,
                modulus > 0,
        ;
    } else {
        assert((last + 1) % modulus == last + 1) by (nonlinear_arith)
            requires
                0 <= last + 1 < modulus,
        ;
        assert(0int % modulus == 0) by (nonlinear_arith)
            requires
                modulus > 0,
        ;
    }
}

} // verus!
