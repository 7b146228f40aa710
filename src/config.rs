use vstd::prelude::*;

verus! {

/// Length of the attached sync marker that precedes each frame.
pub const ASM_LEN: usize = 4;

/// Presence of pseudo-noise randomization; the sequence itself is fixed.
#[derive(Clone, Copy, Debug, PartialEq, Eq, Structural)]
pub struct PnConfig {}

/// Reed-Solomon parameters of a spacecraft.
#[derive(Clone, Copy, Debug, PartialEq, Eq, Structural)]
pub struct RSConfig {
    pub interleave: u8,
    pub virtual_fill_length: usize,
    pub num_correctable: u32,
}

/// Framing parameters of a spacecraft.
#[derive(Clone, Copy, Debug, PartialEq, Eq, Structural)]
pub struct FramingConfig {
    pub length: usize,
    pub insert_zone_length: usize,
    pub trailer_length: usize,
    pub pseudo_noise: Option<PnConfig>,
    pub reed_solomon: Option<RSConfig>,
}

/// Codeblock length: the frame length plus two parity symbols per correctable
/// symbol in each interleaved codeword, when Reed-Solomon is used.
pub open spec fn codeblock_len_of(c: FramingConfig) -> int {
    match c.reed_solomon {
        Some(rs) => c.length + 2 * rs.num_correctable * rs.interleave,
        None => c.length as int,
    }
}

impl FramingConfig {
    /// Length of the RS codeblock.
    pub fn codeblock_len(&self) -> (r: usize)
        requires
            codeblock_len_of(*self) <= usize::MAX,
        ensures
            r == codeblock_len_of(*self),
    {
        match &self.reed_solomon {
            Some(rs) => {
                let n = rs.num_correctable as usize;
                let i = rs.interleave as usize;
                assert(codeblock_len_of(*self) == self.length + 2 * n * i);
                assert(0 <= n * i <= n * i * 2 && n * i * 2 == 2 * n * i) by (nonlinear_arith)
                    requires
                        n >= 0,
                        i >= 0,
                ;
                self.length + n * i * 2
            },
            None => self.length,
        }
    }
}

/// Why arguments of a decode were refused.
#[derive(Clone, Copy, Debug, PartialEq, Eq, Structural)]
pub enum ArgError {
    /// A frame length below zero.
    NegativeFrameLen,
    /// A CADU length below the sync marker length.
    CaduTooShort,
    /// A spacecraft id outside 0..16384.
    InvalidScid,
    /// An insert zone length outside 0..16.
    InvalidInsertZone,
    /// A trailer length outside 0..16.
    InvalidTrailer,
    /// A Reed-Solomon interleave outside 2..=10.
    InvalidInterleave,
}

/// Validated arguments of a frame decode.
#[derive(Clone, Copy, Debug, PartialEq, Eq, Structural)]
pub struct FramesArgs {
    pub frame_len: usize,
    pub interleave: Option<u8>,
}

/// Validated arguments of a framed packet decode.
#[derive(Clone, Copy, Debug, PartialEq, Eq, Structural)]
pub struct FramedPacketsArgs {
    pub scid: u16,
    /// Length of each block after the sync marker.
    pub block_len: usize,
    pub izone_len: usize,
    pub trailer_len: usize,
    pub interleave: Option<u8>,
}

/// An interleave outside 2..=10 is refused.
pub open spec fn interleave_ok(interleave: Option<i32>) -> bool {
    match interleave {
        Some(i) => 2 <= i <= 10,
        None => true,
    }
}

/// A zone length outside 0..16 is refused; absent means zero.
pub open spec fn zone_ok(len: Option<i32>) -> bool {
    match len {
        Some(x) => 0 <= x < 16,
        None => true,
    }
}

pub open spec fn zone_len(len: Option<i32>) -> usize {
    match len {
        Some(x) => x as usize,
        None => 0,
    }
}

pub open spec fn interleave_of(interleave: Option<i32>) -> Option<u8> {
    match interleave {
        Some(i) => Some(i as u8),
        None => None,
    }
}

/// The outcome of validating frame decode arguments.
pub open spec fn frames_args_of(frame_len: i32, interleave: Option<i32>) -> Result<FramesArgs, ArgError> {
    if frame_len < 0 {
        Err(ArgError::NegativeFrameLen)
    } else if !interleave_ok(interleave) {
        Err(ArgError::InvalidInterleave)
    } else {
        Ok(FramesArgs { frame_len: frame_len as usize, interleave: interleave_of(interleave) })
    }
}

/// The outcome of validating framed packet decode arguments, checked in the
/// order CADU length, spacecraft id, insert zone, trailer, interleave.
pub open spec fn framed_packets_args_of(
    scid: i32,
    cadu_len: i32,
    izone_len: Option<i32>,
    trailer_len: Option<i32>,
    interleave: Option<i32>,
) -> Result<FramedPacketsArgs, ArgError> {
    if cadu_len < ASM_LEN {
        Err(ArgError::CaduTooShort)
    } else if !(0 <= scid < 16384) {
        Err(ArgError::InvalidScid)
    } else if !zone_ok(izone_len) {
        Err(ArgError::InvalidInsertZone)
    } else if !zone_ok(trailer_len) {
        Err(ArgError::InvalidTrailer)
    } else if !interleave_ok(interleave) {
        Err(ArgError::InvalidInterleave)
    } else {
        Ok(
            FramedPacketsArgs {
                scid: scid as u16,
                block_len: (cadu_len - ASM_LEN) as usize,
                izone_len: zone_len(izone_len),
                trailer_len: zone_len(trailer_len),
                interleave: interleave_of(interleave),
            },
        )
    }
}

fn check_interleave(interleave: Option<i32>) -> (r: Result<Option<u8>, ArgError>)
    ensures
        interleave_ok(interleave) ==> r == Ok::<Option<u8>, ArgError>(interleave_of(interleave)),
        !interleave_ok(interleave) ==> r == Err::<Option<u8>, ArgError>(ArgError::InvalidInterleave),
{
    match interleave {
        Some(i) => if 2 <= i && i <= 10 {
            Ok(Some(i as u8))
        } else {
            Err(ArgError::InvalidInterleave)
        },
        None => Ok(None),
    }
}

fn check_zone(len: Option<i32>, err: ArgError) -> (r: Result<usize, ArgError>)
    ensures
        zone_ok(len) ==> r == Ok::<usize, ArgError>(zone_len(len)),
        !zone_ok(len) ==> r == Err::<usize, ArgError>(err),
{
    match len {
        Some(x) => if 0 <= x && x < 16 {
            Ok(x as usize)
        } else {
            Err(err)
        },
        None => Ok(0),
    }
}

/// Validates the arguments of a frame decode: the frame length must not be
/// negative and an interleave, where given, lies in 2..=10.
pub fn check_frames_args(frame_len: i32, interleave: Option<i32>) -> (r: Result<FramesArgs, ArgError>)
    ensures
        r == frames_args_of(frame_len, interleave),
{
    if frame_len < 0 {
        return Err(ArgError::NegativeFrameLen);
    }
    let interleave = check_interleave(interleave)?;
    Ok(FramesArgs { frame_len: frame_len as usize, interleave })
}

/// Validates the arguments of a framed packet decode and derives the block
/// length that follows each sync marker.
pub fn check_framed_packets_args(
    scid: i32,
    cadu_len: i32,
    izone_len: Option<i32>,
    trailer_len: Option<i32>,
    interleave: Option<i32>,
) -> (r: Result<FramedPacketsArgs, ArgError>)
    ensures
        r == framed_packets_args_of(scid, cadu_len, izone_len, trailer_len, interleave),
{
    if cadu_len < ASM_LEN as i32 {
        return Err(ArgError::CaduTooShort);
    }
    if !(0 <= scid && scid < 16384) {
        return Err(ArgError::InvalidScid);
    }
    let izone = check_zone(izone_len, ArgError::InvalidInsertZone)?;
    let trailer = check_zone(trailer_len, ArgError::InvalidTrailer)?;
    let interleave = check_interleave(interleave)?;
    Ok(
        FramedPacketsArgs {
            scid: scid as u16,
            block_len: (cadu_len - ASM_LEN as i32) as usize,
            izone_len: izone,
            trailer_len: trailer,
            interleave,
        },
    )
}

} // verus!
