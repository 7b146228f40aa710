use ccsdspy::config::{
    check_framed_packets_args, check_frames_args, ArgError, FramingConfig, PnConfig, RSConfig,
};
use ccsdspy::counters::{missing_frames, missing_packets};
use ccsdspy::frame::{decode_frame, RSState, VCDUHeader};
use ccsdspy::packet::{decode_packets, Packet, PrimaryHeader};
use ccsdspy::timecode::{decode_cds_timecode, decode_eoscuc_timecode, TimecodeError};

#[test]
fn missing_packets_counts_forward_gaps() {
    assert_eq!(missing_packets(5, 3), 1);
    assert_eq!(missing_packets(4, 3), 0);
    assert_eq!(missing_packets(0, 16383), 0);
    assert_eq!(missing_packets(1, 16383), 1);
    assert_eq!(missing_packets(7, 7), 16383);
}

#[test]
fn missing_frames_counts_forward_gaps() {
    assert_eq!(missing_frames(10, 5), 4);
    assert_eq!(missing_frames(0, 16777215), 0);
    assert_eq!(missing_frames(2, 16777215), 2);
    assert_eq!(missing_frames(100, 100), 16777215);
}

#[test]
fn primary_header_fields() {
    // version 0, type 0, secondary header, apid 1369, first, seq 1, len 8
    let dat = vec![0x0d, 0x59, 0x40, 0x01, 0x00, 0x08];
    let h = PrimaryHeader::decode(&dat).unwrap();
    assert_eq!(h.version, 0);
    assert_eq!(h.type_flag, 0);
    assert!(h.has_secondary_header);
    assert_eq!(h.apid, 1369);
    assert_eq!(h.sequence_flags, 1);
    assert_eq!(h.sequence_id, 1);
    assert_eq!(h.len_minus1, 8);

    let h = PrimaryHeader::decode(&[0xff, 0xff, 0xff, 0xff, 0x12, 0x34]).unwrap();
    assert_eq!(h.version, 7);
    assert_eq!(h.type_flag, 1);
    assert_eq!(h.apid, 2047);
    assert_eq!(h.sequence_flags, 3);
    assert_eq!(h.sequence_id, 16383);
    assert_eq!(h.len_minus1, 0x1234);
}

#[test]
fn primary_header_too_short() {
    assert!(PrimaryHeader::decode(&[0u8; 5]).is_none());
    assert!(PrimaryHeader::decode(&[]).is_none());
}

#[test]
fn packet_takes_declared_length() {
    let mut dat = vec![0x08, 0x64, 0xc0, 0x05, 0x00, 0x02, 0xaa, 0xbb, 0xcc];
    dat.extend_from_slice(&[1, 2, 3]);
    let p = Packet::decode(&dat).unwrap();
    assert_eq!(p.header.apid, 100);
    assert_eq!(p.header.sequence_id, 5);
    assert_eq!(p.data, vec![0x08, 0x64, 0xc0, 0x05, 0x00, 0x02, 0xaa, 0xbb, 0xcc]);
}

#[test]
fn packet_shorter_than_declared() {
    let dat = vec![0x08, 0x64, 0xc0, 0x05, 0x00, 0x02, 0xaa, 0xbb];
    assert!(Packet::decode(&dat).is_none());
    assert!(Packet::decode(&dat[..4]).is_none());
}

#[test]
fn vcdu_header_fields() {
    let dat = vec![0x55, 0x61, 0x01, 0xe2, 0x40, 0x05, 0x01, 0x02];
    let h = VCDUHeader::decode(&dat).unwrap();
    assert_eq!(h.version, 1);
    assert_eq!(h.scid, 85);
    assert_eq!(h.vcid, 33);
    assert_eq!(h.counter, 123456);
    assert!(!h.replay);
    assert!(!h.cycle);
    assert_eq!(h.counter_cycle, 5);
    assert!(VCDUHeader::decode(&dat[..5]).is_none());
}

#[test]
fn frame_without_pn_or_rs_keeps_block() {
    let block = vec![0x40, 0x81, 0x00, 0x00, 0x09, 0xc0, 1, 2, 3, 4];
    let f = decode_frame(&block, false, None).unwrap();
    assert_eq!(f.header.scid, 2);
    assert_eq!(f.header.vcid, 1);
    assert_eq!(f.header.counter, 9);
    assert!(f.header.replay);
    assert!(f.header.cycle);
    assert_eq!(f.rsstate, RSState::NotPerformed);
    assert_eq!(f.data, block);
    assert!(decode_frame(&block[..5], false, None).is_none());
}

#[test]
fn frame_pn_is_removed() {
    let block = vec![0u8; 16];
    let f = decode_frame(&block, true, None).unwrap();
    // the CCSDS sequence starts ff 48 0e c0
    assert_eq!(&f.data[..4], &[0xff, 0x48, 0x0e, 0xc0]);
    assert_eq!(f.data.len(), 16);
    let back = decode_frame(&f.data, true, None).unwrap();
    assert_eq!(back.data, block);
}

#[test]
fn frame_rs_clean_codeblock() {
    let mut block = vec![0u8; 1020];

    let f = decode_frame(&block, false, Some(4)).unwrap();
    assert_eq!(f.rsstate, RSState::NoErrors);
    assert_eq!(f.data, vec![0u8; 892]);
}

#[test]
fn frame_rs_corrects_few_errors() {
    for interleave in 2u8..=10 {
        let len = 255 * interleave as usize;
        for errors in 1..=16usize {
            let mut block = vec![0u8; len];
            for k in 0..errors {
                block[interleave as usize * (10 + k)] = 0x5a;
            }
            let f = decode_frame(&block, false, Some(interleave)).unwrap();
            assert_eq!(f.rsstate, RSState::Corrected, "i={interleave} e={errors}");
            assert_eq!(f.data, vec![0u8; len - 32 * interleave as usize]);
        }
    }
}

#[test]
fn frame_rs_flags_too_many_errors() {
    let mut block = vec![0u8; 1020];
    for k in 0..24usize {
        block[4 * (10 + k)] = (k as u8) + 1;
    }
    let f = decode_frame(&block, false, Some(4)).unwrap();
    assert_eq!(f.rsstate, RSState::Uncorrectable);
}

#[test]
fn frame_rs_corrects_fill_frames() {
    // a fill frame (vcid 63) is corrected like any other when RS is configured
    let mut block = vec![0u8; 1020];
    block[1] = 63;
    block[500] = 0x77;
    let f = decode_frame(&block, false, Some(4)).unwrap();
    assert_eq!(f.rsstate, RSState::Corrected);
    assert_eq!(f.data, vec![0u8; 892]);
}

#[test]
fn frame_short_block_with_pn_dropped() {
    assert!(decode_frame(&[0u8; 5], true, None).is_none());
    assert!(decode_frame(&[0u8; 6], true, None).is_some());
}

#[test]
fn frame_rs_wrong_length_dropped() {
    let block = vec![0u8; 1019];
    assert!(decode_frame(&block, false, Some(4)).is_none());
}

#[test]
fn cds_timecode_value() {
    let buf = vec![0x5f, 0x5b, 0x00, 0x00, 0x06, 0x94, 0x02, 0x07];
    assert_eq!(decode_cds_timecode(&buf), Ok(1730419201684));
    assert_eq!(decode_cds_timecode(&[0x11, 0x1f, 0, 0, 0, 0, 0, 0]), Ok(0));
}

#[test]
fn cds_timecode_round_trip() {
    let t: i64 = 1730419201684;
    let days = (t / 86400000 + 4383) as u16;
    let ms = (t % 86400000) as u32;
    let mut buf = days.to_be_bytes().to_vec();
    buf.extend_from_slice(&ms.to_be_bytes());
    buf.extend_from_slice(&[0, 0]);
    assert_eq!(decode_cds_timecode(&buf), Ok(t));
}

#[test]
fn cds_timecode_too_short() {
    assert_eq!(
        decode_cds_timecode(&[0u8; 7]),
        Err(TimecodeError::NotEnoughData { got: 7, wanted: 8 })
    );
}

#[test]
fn eoscuc_timecode_value() {
    // 2024-10-31T10:49:19.4985448 TAI, 37 leap seconds
    let buf = vec![0x7d, 0xb5, 0xbf, 0x2f, 0x80, 0x1f];
    assert_eq!(decode_eoscuc_timecode(&buf), Ok(1730371722498));
}

#[test]
fn eoscuc_timecode_too_short() {
    assert_eq!(
        decode_eoscuc_timecode(&[0u8; 5]),
        Err(TimecodeError::NotEnoughData { got: 5, wanted: 6 })
    );
}

#[test]
fn codeblock_len_adds_parity() {
    let mut c = FramingConfig {
        length: 892,
        insert_zone_length: 2,
        trailer_length: 0,
        pseudo_noise: Some(PnConfig {}),
        reed_solomon: Some(RSConfig { interleave: 4, virtual_fill_length: 0, num_correctable: 16 }),
    };
    assert_eq!(c.codeblock_len(), 1020);
    c.reed_solomon = None;
    assert_eq!(c.codeblock_len(), 892);
}

#[test]
fn frames_args_validation() {
    assert_eq!(check_frames_args(-1, None), Err(ArgError::NegativeFrameLen));
    assert_eq!(check_frames_args(1020, Some(11)), Err(ArgError::InvalidInterleave));
    assert_eq!(check_frames_args(1020, Some(1)), Err(ArgError::InvalidInterleave));
    let a = check_frames_args(1020, Some(4)).unwrap();
    assert_eq!(a.frame_len, 1020);
    assert_eq!(a.interleave, Some(4));
}

#[test]
fn framed_packets_args_validation() {
    assert_eq!(check_framed_packets_args(42, 3, None, None, None), Err(ArgError::CaduTooShort));
    assert_eq!(check_framed_packets_args(16384, 1024, None, None, None), Err(ArgError::InvalidScid));
    assert_eq!(check_framed_packets_args(-1, 1024, None, None, None), Err(ArgError::InvalidScid));
    assert_eq!(
        check_framed_packets_args(42, 1024, Some(16), None, None),
        Err(ArgError::InvalidInsertZone)
    );
    assert_eq!(
        check_framed_packets_args(42, 1024, None, Some(-1), None),
        Err(ArgError::InvalidTrailer)
    );
    assert_eq!(
        check_framed_packets_args(42, 1024, None, None, Some(11)),
        Err(ArgError::InvalidInterleave)
    );
    let a = check_framed_packets_args(42, 1024, Some(2), None, Some(4)).unwrap();
    assert_eq!(a.scid, 42);
    assert_eq!(a.block_len, 1020);
    assert_eq!(a.izone_len, 2);
    assert_eq!(a.trailer_len, 0);
    assert_eq!(a.interleave, Some(4));
}

#[test]
fn eoscuc_timecode_round_trip() {
    // 2024-10-31T10:48:42.498 UTC, 37 leap seconds in force
    let t: i64 = 1730371722498;
    let secs = (t / 1000 + 378691200 + 37) as u32;
    let fine = (((t % 1000) * 1250 + 18) / 19) as u16;
    let mut buf = secs.to_be_bytes().to_vec();
    buf.extend_from_slice(&fine.to_be_bytes());
    assert_eq!(decode_eoscuc_timecode(&buf), Ok(t));
}

#[test]
fn packet_stream_split_by_declared_lengths() {
    let a = vec![0x08, 0x64, 0xc0, 0x05, 0x00, 0x02, 0xaa, 0xbb, 0xcc];
    let b = vec![0x08, 0x65, 0xc0, 0x06, 0x00, 0x00, 0x11];
    let mut stream = a.clone();
    stream.extend_from_slice(&b);
    stream.extend_from_slice(&[0x08, 0x64, 0xc0]);
    let packets = decode_packets(&stream);
    assert_eq!(packets.len(), 2);
    assert_eq!(packets[0].data, a);
    assert_eq!(packets[1].data, b);
    assert_eq!(packets[1].header.apid, 101);
    assert!(decode_packets(&[]).is_empty());
}
