use vstd::prelude::*;

verus! {

/// Length in bytes of a space packet primary header.
pub const PRIMARY_HEADER_LEN: usize = 6;

/// Big-endian value of two bytes.
pub open spec fn be16(hi: u8, lo: u8) -> int {
    hi as int * 256 + lo as int
}

/// CCSDS space packet primary header.
#[derive(Clone, Copy, Debug, PartialEq, Eq, Structural)]
pub struct PrimaryHeader {
    pub version: u8,
    pub type_flag: u8,
    pub has_secondary_header: bool,
    pub apid: u16,
    pub sequence_flags: u8,
    pub sequence_id: u16,
    pub len_minus1: u16,
}

/// The header held by the first six bytes of `b`: three big-endian 16-bit words,
/// the first split 3/1/1/11 bits, the second 2/14 bits, the third the length.
pub open spec fn primary_header_of(b: Seq<u8>) -> PrimaryHeader
    recommends
        b.len() >= 6,
{
    PrimaryHeader {
        version: (b[0] / 32) as u8,
        type_flag: ((b[0] / 16) % 2) as u8,
        has_secondary_header: (b[0] / 8) % 2 == 1,
        apid: be16((b[0] % 8) as u8, b[1]) as u16,
        sequence_flags: (b[2] / 64) as u8,
        sequence_id: be16((b[2] % 64) as u8, b[3]) as u16,
        len_minus1: be16(b[4], b[5]) as u16,
    }
}

/// Total length in bytes of a packet whose header is `h`.
pub open spec fn packet_len(h: PrimaryHeader) -> int {
    PRIMARY_HEADER_LEN as int + h.len_minus1 as int + 1
}

impl PrimaryHeader {
    /// Decodes a header from the first six bytes of `dat`; `None` where there are
    /// fewer.
    pub fn decode(dat: &[u8]) -> (r: Option<PrimaryHeader>)
        ensures
            dat@.len() < 6 ==> r.is_none(),
            dat@.len() >= 6 ==> r == Some(primary_header_of(dat@)),
    {
        if dat.len() < PRIMARY_HEADER_LEN {
            return None;
        }
        let b0 = dat[0];
        let b2 = dat[2];
        Some(PrimaryHeader {
            version: b0 / 32,
            type_flag: (b0 / 16) % 2,
            has_secondary_header: (b0 / 8) % 2 == 1,
            apid: ((b0 % 8) as u16) * 256 + dat[1] as u16,
            sequence_flags: b2 / 64,
            sequence_id: ((b2 % 64) as u16) * 256 + dat[3] as u16,
            len_minus1: (dat[4] as u16) * 256 + dat[5] as u16,
        })
    }

}

/// A space packet: its header and all of its bytes, header included.
#[derive(Clone, Debug)]
pub struct Packet {
    pub header: PrimaryHeader,
    pub data: Vec<u8>,
}

/// A packet as reassembled from frames, with the frame identifiers it came from.
#[derive(Clone, Debug)]
pub struct DecodedPacket {
    pub scid: u16,
    pub vcid: u16,
    pub packet: Packet,
}

/// The prefix of `dat` that holds a whole packet, if it holds one.
pub open spec fn packet_of(dat: Seq<u8>) -> Option<(PrimaryHeader, Seq<u8>)> {
    if dat.len() >= 6 && dat.len() >= packet_len(primary_header_of(dat)) {
        Some((primary_header_of(dat), dat.subrange(0, packet_len(primary_header_of(dat)))))
    } else {
        None
    }
}

/// Copy of `dat[0..n]`.
pub(crate) fn prefix(dat: &[u8], n: usize) -> (r: Vec<u8>)
    requires
        n <= dat@.len(),
    ensures
        r@ == dat@.subrange(0, n as int),
{
    let mut out: Vec<u8> = Vec::with_capacity(n);
    let mut i: usize = 0;
    while i < n
        invariant
            n <= dat@.len(),
            i <= n,
            out@ == dat@.subrange(0, i as int),
        decreases n - i,
    {
        out.push(dat[i]);
        i = i + 1;
    }
    out
}

impl Packet {
    /// Decodes one packet from the start of `dat`: its header and the bytes the
    /// header declares. `None` where `dat` is shorter than that.
    pub fn decode(dat: &[u8]) -> (r: Option<Packet>)
        ensures
            packet_of(dat@) is None <==> r.is_none(),
            r.is_some() ==> packet_of(dat@) == Some((r.unwrap().header, r.unwrap().data@)),
    {
        match PrimaryHeader::decode(dat) {
            None => None,
            Some(header) => {
                let total: usize = PRIMARY_HEADER_LEN + header.len_minus1 as usize + 1;
                if dat.len() < total {
                    None
                } else {
                    let data = prefix(dat, total);
                    Some(Packet { header, data })
                }
            },
        }
    }
}

/// The packets that follow one another from the start of `s`, each cut at the
/// length its header declares, up to the first that `s` does not hold whole.
pub open spec fn packets_in(s: Seq<u8>) -> Seq<(PrimaryHeader, Seq<u8>)>
    decreases s.len(),
{
    match packet_of(s) {
        Some((h, d)) => if 0 < d.len() <= s.len() {
            seq![(h, d)] + packets_in(s.subrange(d.len() as int, s.len() as int))
        } else {
            seq![]
        },
        None => seq![],
    }
}

pub open spec fn packets_view(ps: Seq<Packet>) -> Seq<(PrimaryHeader, Seq<u8>)> {
    ps.map_values(|p: Packet| (p.header, p.data@))
}

/// Decodes a stream of packets that follow one another without gaps; trailing
/// bytes that do not hold a whole packet are dropped.
pub fn decode_packets(stream: &[u8]) -> (r: Vec<Packet>)
    ensures
        packets_view(r@) == packets_in(stream@),
{
    let mut out: Vec<Packet> = Vec::new();
    let mut pos: usize = 0;
    let n = stream.len();
    proof {
        assert(stream@.subrange(0, n as int) =~= stream@);
        assert(packets_view(out@) + packets_in(stream@) =~= packets_in(stream@));
    }
    loop
        invariant
            n == stream@.len(),
            pos <= n,
            packets_view(out@) + packets_in(stream@.subrange(pos as int, n as int)) == packets_in(stream@),
        decreases n - pos,
    {
        let rest = vstd::slice::slice_subrange(stream, pos, n);
        match Packet::decode(rest) {
            None => {
                return out;
            },
            Some(p) => {
                let ghost before = out@;
                let len = p.data.len();
                proof {
                    assert(rest@ == stream@.subrange(pos as int, n as int));
                    assert(stream@.subrange(pos as int, n as int).subrange(len as int, (n - pos) as int)
                        == stream@.subrange(pos + len, n as int));
                    assert(packets_view(before.push(p)) == packets_view(before).push((p.header, p.data@)));
                }
                out.push(p);
                pos = pos + len;
            },
        }
    }
}

} // verus!
