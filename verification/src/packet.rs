//! The data-connection wire format: each encoded audio packet is sent as a
//! 4-byte big-endian length followed by that many payload bytes.
use vstd::prelude::*;

verus! {

/// The four big-endian bytes of `v`.
pub open spec fn be_bytes(v: u32) -> Seq<u8> {
    seq![(v >> 24u32) as u8, (v >> 16u32) as u8, (v >> 8u32) as u8, v as u8]
}

/// The value of four big-endian bytes.
pub open spec fn be_value(b0: u8, b1: u8, b2: u8, b3: u8) -> u32 {
    ((b0 as u32) << 24u32) | ((b1 as u32) << 16u32) | ((b2 as u32) << 8u32) | (b3 as u32)
}

/// The length announced by the first four bytes of `s`.
pub open spec fn announced_len(s: Seq<u8>) -> int {
    be_value(s[0], s[1], s[2], s[3]) as int
}

/// Reading back the bytes of a length gives the length.
pub proof fn lemma_be_roundtrip(v: u32)
    ensures
        be_value(be_bytes(v)[0], be_bytes(v)[1], be_bytes(v)[2], be_bytes(v)[3]) == v,
{
    let b0 = (v >> 24u32) as u8;
    let b1 = (v >> 16u32) as u8;
    let b2 = (v >> 8u32) as u8;
    let b3 = v as u8;
    assert(((b0 as u32) << 24u32) | ((b1 as u32) << 16u32) | ((b2 as u32) << 8u32) | (b3 as u32)
        == v) by (bit_vector)
        requires
            b0 == (v >> 24u32) as u8,
            b1 == (v >> 16u32) as u8,
            b2 == (v >> 8u32) as u8,
            b3 == v as u8,
    ;
}

/// One packet on the wire: its length prefix, then its payload.
pub open spec fn packet_bytes(payload: Seq<u8>) -> Seq<u8> {
    be_bytes(payload.len() as u32) + payload
}

/// A stream of packets, one after the other.
pub open spec fn stream_bytes(payloads: Seq<Seq<u8>>) -> Seq<u8>
    decreases payloads.len(),
{
    if payloads.len() == 0 {
        Seq::empty()
    } else {
        packet_bytes(payloads[0]) + stream_bytes(payloads.drop_first())
    }
}

/// The packets a reader takes out of `s`: it reads a length prefix and then
/// that many bytes, as long as four bytes for a prefix remain. Fewer than
/// four trailing bytes end the stream; a payload cut short makes it malformed
/// (`None`).
pub open spec fn parse_packets(s: Seq<u8>) -> Option<Seq<Seq<u8>>>
    decreases s.len(),
{
    if s.len() < 4 {
        Some(Seq::empty())
    } else {
        let n = announced_len(s);
        if s.len() - 4 < n {
            None
        } else {
            match parse_packets(s.skip(4 + n)) {
                Some(rest) => Some(seq![s.subrange(4, 4 + n)] + rest),
                None => None,
            }
        }
    }
}

/// The contents of each vector of `v`.
pub open spec fn contents(v: Seq<Vec<u8>>) -> Seq<Seq<u8>> {
    v.map_values(|p: Vec<u8>| p@)
}

/// The 4-byte length prefix of a packet of `len` bytes (the length is taken modulo 2^32,
/// as the sender's `len as u32` does).
pub fn packet_header(len: usize) -> (h: [u8; 4])
    ensures
        h@ == be_bytes(len as u32),
{
    let v = len as u32;
    let h = [(v >> 24u32) as u8, (v >> 16u32) as u8, (v >> 8u32) as u8, v as u8];
    assert(h@ =~= be_bytes(len as u32));
    h
}

/// A whole packet: the length prefix (modulo 2^32, as `packet_header`) followed by `payload`.
pub fn encode_packet(payload: &[u8]) -> (r: Vec<u8>)
    ensures
        r@ == packet_bytes(payload@),
{
    let h = packet_header(payload.len());
    let mut r: Vec<u8> = Vec::with_capacity(4);
    r.push(h[0]);
    r.push(h[1]);
    r.push(h[2]);
    r.push(h[3]);
    let mut i: usize = 0;
    while i < payload.len()
        invariant
            i <= payload@.len(),
            r@ == be_bytes(payload@.len() as u32) + payload@.take(i as int),
        decreases payload@.len() - i,
    {
        r.push(payload[i]);
        assert(payload@.take(i as int).push(payload@[i as int]) =~= payload@.take(i + 1));
        i = i + 1;
    }
    assert(payload@.take(payload@.len() as int) =~= payload@);
    r
}

/// Splits a byte stream into the packets it carries (see `parse_packets`).
pub fn decode_packets(stream: &[u8]) -> (r: Option<Vec<Vec<u8>>>)
    ensures
        match r {
            Some(ps) => parse_packets(stream@) == Some(contents(ps@)),
            None => parse_packets(stream@) is None,
        },
{
    let mut out: Vec<Vec<u8>> = Vec::new();
    let mut pos: usize = 0;
    assert(stream@.skip(0) =~= stream@);
    assert forall|rest: Seq<Seq<u8>>| #![auto] contents(out@) + rest =~= rest by {}
    while stream.len() - pos >= 4
        invariant
            pos <= stream@.len(),
            match parse_packets(stream@.skip(pos as int)) {
                Some(rest) => parse_packets(stream@) == Some(contents(out@) + rest),
                None => parse_packets(stream@) is None,
            },
        decreases stream@.len() - pos,
    {
        let ghost s = stream@.skip(pos as int);
        let n = (((stream[pos] as u32) << 24u32) | ((stream[pos + 1] as u32) << 16u32) | ((
        stream[pos + 2] as u32) << 8u32) | (stream[pos + 3] as u32)) as usize;
        assert(n == announced_len(s));
        if stream.len() - pos - 4 < n {
            return None;
        }
        let mut p: Vec<u8> = Vec::with_capacity(n);
        let start = pos + 4;
        let end = start + n;
        let mut i: usize = 0;
        while i < n
            invariant
                end == start + n,
                end <= stream@.len(),
                i <= n,
                p@ == stream@.subrange(start as int, start + i),
            decreases n - i,
        {
            p.push(stream[start + i]);
            assert(stream@.subrange(start as int, start + i).push(stream@[start + i])
                =~= stream@.subrange(start as int, start + i + 1));
            i = i + 1;
        }
        assert(p@ =~= s.subrange(4, 4 + n as int));
        assert(stream@.skip(start + n) =~= s.skip(4 + n as int));
        let ghost old_out = out@;
        out.push(p);
        assert(contents(out@) =~= contents(old_out) + seq![s.subrange(4, 4 + n as int)]);
        assert forall|rest: Seq<Seq<u8>>|
            #![auto]
            contents(old_out) + (seq![s.subrange(4, 4 + n as int)] + rest) =~= contents(out@)
                + rest by {}
        pos = start + n;
    }
    assert(stream@.skip(pos as int).len() < 4);
    assert(contents(out@) + Seq::<Seq<u8>>::empty() =~= contents(out@));
    Some(out)
}

/// Every stream of packets reads back as the packets that were written (as long
/// as each payload's length fits the 4-byte prefix).
pub proof fn lemma_stream_roundtrip(payloads: Seq<Seq<u8>>)
    requires
        forall|i: int| 0 <= i < payloads.len() ==> payloads[i].len() <= u32::MAX,
    ensures
        parse_packets(stream_bytes(payloads)) == Some(payloads),
    decreases payloads.len(),
{
    if payloads.len() == 0 {
        assert(stream_bytes(payloads) =~= Seq::<u8>::empty());
        assert(payloads =~= Seq::<Seq<u8>>::empty());
    } else {
        let p = payloads[0];
        let rest = payloads.drop_first();
        assert forall|i: int| 0 <= i < rest.len() implies rest[i].len() <= u32::MAX by {
            assert(rest[i] == payloads[i + 1]);
        }
        lemma_stream_roundtrip(rest);
        let s = stream_bytes(payloads);
        let n = p.len() as u32;
        let hdr = be_bytes(n);
        let tail = stream_bytes(rest);
        lemma_be_roundtrip(n);
        assert(s == hdr + p + tail);
        assert(hdr.len() == 4);
        assert(s[0] == hdr[0] && s[1] == hdr[1] && s[2] == hdr[2] && s[3] == hdr[3]);
        assert(announced_len(s) == p.len());
        assert(s.subrange(4, 4 + p.len() as int) =~= p);
        assert(s.skip(4 + p.len() as int) =~= tail);
        assert(seq![p] + rest =~= payloads);
    }
}

} // verus!
