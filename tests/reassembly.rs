use ccsdspy::frame::{Frame, RSState, VCDUHeader};
use ccsdspy::reassembly::{decode_framed_packets, frame_gaps};

fn header(vcid: u16, counter: u32) -> VCDUHeader {
    VCDUHeader {
        version: 1,
        scid: 42,
        vcid,
        counter,
        replay: false,
        cycle: false,
        counter_cycle: 0,
    }
}

/// A frame of spacecraft 42 whose packet zone is `zone`, with first header
/// pointer `fhp`.
fn frame(vcid: u16, counter: u32, fhp: u16, zone: &[u8]) -> Frame {
    let mut data = vec![
        0x40 | (42u8 >> 2),
        ((42u8 & 0x3) << 6) | vcid as u8,
        (counter >> 16) as u8,
        (counter >> 8) as u8,
        counter as u8,
        0,
    ];
    data.extend_from_slice(&fhp.to_be_bytes());
    data.extend_from_slice(zone);
    Frame {
        header: header(vcid, counter),
        rsstate: RSState::NotPerformed,
        data,
    }
}

fn packet(apid: u16, seq: u16, user_len: usize, fill: u8) -> Vec<u8> {
    let len_minus1 = (user_len - 1) as u16;
    let mut p = vec![
        (apid >> 8) as u8,
        apid as u8,
        0xc0 | (seq >> 8) as u8,
        seq as u8,
        (len_minus1 >> 8) as u8,
        len_minus1 as u8,
    ];
    p.extend((0..user_len).map(|i| fill.wrapping_add(i as u8)));
    p
}

#[test]
fn packet_spanning_three_frames() {
    let p = packet(100, 7, 46, 0x10);
    assert_eq!(p.len(), 52);
    let next = packet(100, 8, 40, 0x80);
    let mut zone3 = p[40..].to_vec();
    zone3.extend_from_slice(&next[..8]);
    let frames = vec![
        frame(1, 0, 0, &p[0..20]),
        frame(1, 1, 0x7ff, &p[20..40]),
        frame(1, 2, 12, &zone3),
    ];
    let packets = decode_framed_packets(&frames, 42, 0, 0);
    assert_eq!(packets.len(), 1);
    assert_eq!(packets[0].scid, 42);
    assert_eq!(packets[0].vcid, 1);
    assert_eq!(packets[0].packet.data, p);
    assert_eq!(packets[0].packet.header.apid, 100);
    assert_eq!(packets[0].packet.header.sequence_id, 7);
}

#[test]
fn interrupted_packet_is_discarded() {
    let a = packet(100, 1, 46, 0x10);
    let b = packet(100, 2, 10, 0x40);
    let mut zone = b.clone();
    zone.extend_from_slice(&[0u8; 4]);
    // frame 1 is lost: the first part of `a` must not merge with `b`
    let frames = vec![frame(1, 0, 0, &a[0..20]), frame(1, 2, 0, &zone)];
    let packets = decode_framed_packets(&frames, 42, 0, 0);
    assert_eq!(packets.len(), 1);
    assert_eq!(packets[0].packet.data, b);
}

#[test]
fn other_spacecraft_and_short_frames_are_dropped() {
    let b = packet(100, 2, 10, 0x40);
    let mut other = frame(1, 0, 0, &b);
    other.header.scid = 43;
    let short = frame(1, 1, 0, &[]);
    let packets = decode_framed_packets(&vec![other, short], 42, 0, 0);
    assert_eq!(packets.len(), 0);
    let packets = decode_framed_packets(&vec![frame(1, 0, 0, &b)], 42, 0, 0);
    assert_eq!(packets.len(), 1);
    assert_eq!(packets[0].packet.data, b);
}

#[test]
fn channels_are_reassembled_apart() {
    let a = packet(100, 1, 30, 0x10);
    let b = packet(200, 1, 30, 0x60);
    let frames = vec![
        frame(1, 0, 0, &a[0..20]),
        frame(2, 0, 0, &b[0..20]),
        frame(1, 1, 16, &[&a[20..], &[0u8; 4][..]].concat()),
        frame(2, 1, 16, &[&b[20..], &[0u8; 4][..]].concat()),
    ];
    let packets = decode_framed_packets(&frames, 42, 0, 0);
    assert_eq!(packets.len(), 2);
    assert_eq!(packets[0].packet.data, a);
    assert_eq!(packets[0].vcid, 1);
    assert_eq!(packets[1].packet.data, b);
    assert_eq!(packets[1].vcid, 2);
}

#[test]
fn gaps_are_counted_per_channel() {
    let frames = vec![
        frame(1, 5, 0, &[]),
        frame(1, 6, 0, &[]),
        frame(2, 100, 0, &[]),
        frame(1, 9, 0, &[]),
        frame(63, 0, 0, &[]),
        frame(2, 100, 0, &[]),
        frame(1, 0, 0, &[]),
    ];
    assert_eq!(frame_gaps(&frames), vec![0, 0, 0, 2, 0, 16777215, 16777206]);
}
