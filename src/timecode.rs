use vstd::prelude::*;
use crate::packet::be16;

verus! {

/// Days from the CCSDS epoch (1958-01-01) to the Unix epoch (1970-01-01).
pub const EPOCH_DELTA_DAYS: i64 = 4383;

/// Seconds from the CCSDS epoch (1958-01-01) to the Unix epoch (1970-01-01).
pub const EPOCH_DELTA_SECS: i64 = 378691200;

/// Milliseconds in a day.
pub const MILLIS_PER_DAY: i64 = 86400000;

/// Bytes of a day-segmented timecode: 2 of days, 4 of milliseconds of day,
/// 2 of microseconds within the millisecond.
pub const CDS_LEN: usize = 8;

/// Bytes of an EOS unsegmented timecode: 4 of seconds, 2 of fine time in units
/// of 15.2 microseconds.
pub const EOSCUC_LEN: usize = 6;

/// Why a timecode could not be decoded.
#[derive(Clone, Copy, Debug, PartialEq, Eq, Structural)]
pub enum TimecodeError {
    /// The buffer is shorter than the format's width.
    NotEnoughData { got: usize, wanted: usize },
}

/// Big-endian value of four bytes.
pub open spec fn be32(b0: u8, b1: u8, b2: u8, b3: u8) -> int {
    be16(b0, b1) * 65536 + be16(b2, b3)
}

/// Unix milliseconds of a day-segmented time: days since 1958-01-01,
/// milliseconds of the day and microseconds within the millisecond.
pub open spec fn cds_millis_of(days: int, millis: int, micros: int) -> int {
    (days - EPOCH_DELTA_DAYS) * MILLIS_PER_DAY + millis + micros / 1000
}

/// Unix milliseconds held by the first eight bytes of `b` as a day-segmented
/// timecode.
pub open spec fn cds_millis(b: Seq<u8>) -> int
    recommends
        b.len() >= 8,
{
    cds_millis_of(be16(b[0], b[1]), be32(b[2], b[3], b[4], b[5]), be16(b[6], b[7]))
}

/// Decodes a day-segmented timecode (UTC) into milliseconds since the Unix
/// epoch; bytes past the eighth are ignored.
pub fn decode_cds_timecode(dat: &[u8]) -> (r: Result<i64, TimecodeError>)
    ensures
        dat@.len() < CDS_LEN ==> r == Err::<i64, TimecodeError>(
            TimecodeError::NotEnoughData { got: dat@.len() as usize, wanted: CDS_LEN },
        ),
        dat@.len() >= CDS_LEN ==> (r matches Ok(t) && t as int == cds_millis(dat@)),
{
    if dat.len() < CDS_LEN {
        return Err(TimecodeError::NotEnoughData { got: dat.len(), wanted: CDS_LEN });
    }
    let days: i64 = (dat[0] as i64) * 256 + dat[1] as i64;
    let millis: i64 = (dat[2] as i64) * 16777216 + (dat[3] as i64) * 65536 + (dat[4] as i64)
        * 256 + dat[5] as i64;
    let micros: i64 = (dat[6] as i64) * 256 + dat[7] as i64;
    assert(0 <= days < 65536 && 0 <= millis < 4294967296 && 0 <= micros < 65536);
    assert((days - EPOCH_DELTA_DAYS) * MILLIS_PER_DAY <= 65536 * 86400000) by (nonlinear_arith)
        requires
            0 <= days < 65536,
    ;
    assert((days - EPOCH_DELTA_DAYS) * MILLIS_PER_DAY >= -4383 * 86400000) by (nonlinear_arith)
        requires
            0 <= days < 65536,
    ;
    Ok((days - EPOCH_DELTA_DAYS) * MILLIS_PER_DAY + millis + micros / 1000)
}

/// Seconds of TAI minus UTC (leap seconds) at the given TAI instant, counted in
/// seconds since 1958-01-01.
pub uninterp spec fn leap_seconds_of(tai_secs: u32) -> i32;

/// Relies on ccsds's `timecode::decode` for an unsegmented code of four coarse
/// bytes (TAI seconds since 1958) and hifitime's `Epoch::leap_seconds_iers`:
/// the IERS leap-second count at that instant.
#[verifier::external_body]
fn leap_seconds_at(tai_secs: u32) -> (r: i32)
    ensures
        r == leap_seconds_of(tai_secs),
{
    let format = ccsds::timecode::Format::Cuc { num_coarse: 4, num_fine: 0, fine_mult: None };
    match ccsds::timecode::decode(&format, &tai_secs.to_be_bytes()) {
        Ok(epoch) => epoch.leap_seconds_iers(),
        Err(_) => 0,
    }
}

/// Unix milliseconds in TAI of an EOS unsegmented time: seconds since
/// 1958-01-01 and fine time in units of 15.2 microseconds (15200 ns).
pub open spec fn eoscuc_tai_millis_of(secs: int, fine: int) -> int {
    (secs - EPOCH_DELTA_SECS) * 1000 + (fine * 15200) / 1000000
}

/// Unix milliseconds in UTC of an EOS unsegmented time.
pub open spec fn eoscuc_millis_of(secs: u32, fine: int) -> int {
    eoscuc_tai_millis_of(secs as int, fine) - 1000 * leap_seconds_of(secs)
}

/// Unix milliseconds (UTC) held by the first six bytes of `b` as an EOS
/// unsegmented timecode.
pub open spec fn eoscuc_millis(b: Seq<u8>) -> int
    recommends
        b.len() >= 6,
{
    eoscuc_millis_of(be32(b[0], b[1], b[2], b[3]) as u32, be16(b[4], b[5]))
}

/// Decodes an EOS unsegmented timecode (TAI since 1958) into UTC milliseconds
/// since the Unix epoch; bytes past the sixth are ignored.
pub fn decode_eoscuc_timecode(dat: &[u8]) -> (r: Result<i64, TimecodeError>)
    ensures
        dat@.len() < EOSCUC_LEN ==> r == Err::<i64, TimecodeError>(
            TimecodeError::NotEnoughData { got: dat@.len() as usize, wanted: EOSCUC_LEN },
        ),
        dat@.len() >= EOSCUC_LEN ==> (r matches Ok(t) && t as int == eoscuc_millis(dat@)),
{
    if dat.len() < EOSCUC_LEN {
        return Err(TimecodeError::NotEnoughData { got: dat.len(), wanted: EOSCUC_LEN });
    }
    let secs: u32 = (dat[0] as u32) * 16777216 + (dat[1] as u32) * 65536 + (dat[2] as u32) * 256
        + dat[3] as u32;
    let fine: i64 = (dat[4] as i64) * 256 + dat[5] as i64;
    let leap: i32 = leap_seconds_at(secs);
    let tai: i64 = (secs as i64 - EPOCH_DELTA_SECS) * 1000 + (fine * 15200) / 1000000;
    Ok(tai - 1000 * (leap as i64))
}

/// The two big-endian bytes of a 16-bit value.
pub open spec fn be16_bytes(v: int) -> Seq<u8> {
    seq![(v / 256) as u8, (v % 256) as u8]
}

/// The day-segmented layout of a day count and a millisecond of day, with no
/// sub-millisecond part.
pub open spec fn cds_bytes(days: int, millis: int) -> Seq<u8> {
    be16_bytes(days) + be16_bytes(millis / 65536) + be16_bytes(millis % 65536) + seq![0u8, 0u8]
}

/// The EOS unsegmented layout of seconds since 1958 and fine time.
pub open spec fn eoscuc_bytes(secs: int, fine: int) -> Seq<u8> {
    be16_bytes(secs / 65536) + be16_bytes(secs % 65536) + be16_bytes(fine)
}

proof fn lemma_be16_bytes(v: int)
    requires
        0 <= v < 65536,
    ensures
        be16(be16_bytes(v)[0], be16_bytes(v)[1]) == v,
{
    assert(0 <= v / 256 < 256 && 0 <= v % 256 < 256 && (v / 256) * 256 + v % 256 == v)
        by (nonlinear_arith)
        requires
            0 <= v < 65536,
    ;
}

proof fn lemma_be32_bytes(v: int)
    requires
        0 <= v < 4294967296,
    ensures
        0 <= v / 65536 < 65536,
        0 <= v % 65536 < 65536,
        (v / 65536) * 65536 + v % 65536 == v,
{
    assert(0 <= v / 65536 < 65536 && 0 <= v % 65536 < 65536 && (v / 65536) * 65536 + v % 65536
        == v) by (nonlinear_arith)
        requires
            0 <= v < 4294967296,
    ;
}

/// Round trip of the day-segmented format: every Unix millisecond `t` whose day
/// falls within the 16-bit day count since 1958, laid out as day and
/// millisecond of day, decodes back to `t`.
pub proof fn lemma_cds_round_trip(t: int)
    requires
        0 <= t / (MILLIS_PER_DAY as int) + EPOCH_DELTA_DAYS < 65536,
    ensures
        cds_millis(cds_bytes(t / (MILLIS_PER_DAY as int) + EPOCH_DELTA_DAYS, t % (MILLIS_PER_DAY as int))) == t,
{
    let d = MILLIS_PER_DAY as int;
    let days = t / d + EPOCH_DELTA_DAYS;
    let millis = t % d;
    assert(0 <= millis < d && (t / d) * d + millis == t) by (nonlinear_arith)
        requires
            d == 86400000,
            millis == t % d,
    ;
    lemma_be16_bytes(days);
    lemma_be32_bytes(millis);
    lemma_be16_bytes(millis / 65536);
    lemma_be16_bytes(millis % 65536);
    let b = cds_bytes(days, millis);
    assert(be16(b[0], b[1]) == days);
    assert(be32(b[2], b[3], b[4], b[5]) == millis);
    assert(be16(b[6], b[7]) == 0);
}

/// The EOS unsegmented layout of `secs` and `fine` decodes to that TAI time less
/// the leap seconds in force.
pub proof fn lemma_eoscuc_layout(secs: u32, fine: int)
    requires
        0 <= fine < 65536,
    ensures
        eoscuc_millis(eoscuc_bytes(secs as int, fine)) == eoscuc_tai_millis_of(secs as int, fine)
            - 1000 * leap_seconds_of(secs),
{
    lemma_be32_bytes(secs as int);
    lemma_be16_bytes(secs as int / 65536);
    lemma_be16_bytes(secs as int % 65536);
    lemma_be16_bytes(fine);
    let b = eoscuc_bytes(secs as int, fine);
    assert(be32(b[0], b[1], b[2], b[3]) == secs as int);
    assert(be16(b[4], b[5]) == fine);
}

/// Fine-time ticks (15.2 microseconds) that start millisecond `m` of a second.
pub open spec fn fine_of_millis(m: int) -> int {
    (m * 1250 + 18) / 19
}

/// Round trip of the EOS unsegmented format from a UTC instant: let `t` be a
/// Unix millisecond in UTC and `secs` its coarse field, the TAI seconds since
/// 1958 that include the leap seconds in force then; with the fine field set to
/// the ticks of its millisecond, the layout decodes back to `t`. Fine time
/// reaches 996.1 ms, so the last three milliseconds of a second are left out.
pub proof fn lemma_eoscuc_round_trip(t: int, secs: u32)
    requires
        secs as int == t / 1000 + EPOCH_DELTA_SECS + leap_seconds_of(secs),
        t % 1000 <= 996,
    ensures
        eoscuc_millis(eoscuc_bytes(secs as int, fine_of_millis(t % 1000))) == t,
{
    let m = t % 1000;
    let fine = fine_of_millis(m);
    assert(0 <= m && (t / 1000) * 1000 + m == t) by (nonlinear_arith)
        requires
            m == t % 1000,
    ;
    assert(0 <= fine < 65536 && m * 1250 <= fine * 19 <= m * 1250 + 18) by (nonlinear_arith)
        requires
            0 <= m <= 996,
            fine == (m * 1250 + 18) / 19,
    ;
    assert((fine * 15200) / 1000000 == m) by (nonlinear_arith)
        requires
            0 <= m,
            m * 1250 <= fine * 19 <= m * 1250 + 18,
    ;
    lemma_eoscuc_layout(secs, fine);
}

} // verus!
