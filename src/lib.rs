//! Decoding of CCSDS telemetry: space packet and VCDU headers, per-block frame
//! decoding (pseudo-noise removal and Reed-Solomon), frame streams, packet
//! reassembly across frames, sequence gap counting and timecodes.
pub mod config;
pub mod counters;
pub mod frame;
pub mod packet;
pub mod reassembly;
pub mod timecode;
