//! The Docker multiplexed-stream frame: one stream-type byte, three zero
//! bytes, a big-endian 32-bit payload length, then the payload.
use vstd::prelude::*;

verus! {

/// The big-endian bytes of a 32-bit length.
pub open spec fn be32(n: u32) -> Seq<u8> {
    seq![(n / 0x1000000) as u8, ((n / 0x10000) % 0x100) as u8, ((n / 0x100) % 0x100) as u8, (n
        % 0x100) as u8]
}

/// The frame header for a stream type and payload length.
pub open spec fn frame_header(stream_type: u8, len: u32) -> Seq<u8> {
    seq![stream_type, 0u8, 0u8, 0u8] + be32(len)
}

/// Frames `data` for the stream `stream_type` (0 stdin, 1 stdout, 2 stderr).
/// The length field holds the payload length modulo 2^32.
pub fn encode_frame(stream_type: u8, data: &[u8]) -> (frame: Vec<u8>)
    ensures
        frame@ == frame_header(stream_type, (data@.len() % 0x1_0000_0000) as u32) + data@,
{
    let n = data.len();
    let len: u32 = ((n as u64) % 0x1_0000_0000u64) as u32;
    let mut frame: Vec<u8> = Vec::new();
    frame.push(stream_type);
    frame.push(0);
    frame.push(0);
    frame.push(0);
    frame.push((len / 0x1000000) as u8);
    frame.push(((len / 0x10000) % 0x100) as u8);
    frame.push(((len / 0x100) % 0x100) as u8);
    frame.push((len % 0x100) as u8);
    let mut i: usize = 0;
    while i < n
        invariant
            n == data@.len(),
            i <= n,
            frame@ == frame_header(stream_type, len) + data@.subrange(0, i as int),
        decreases n - i,
    {
        frame.push(data[i]);
        i += 1;
        assert(frame@ =~= frame_header(stream_type, len) + data@.subrange(0, i as int));
    }
    assert(data@.subrange(0, n as int) =~= data@);
    frame
}

/// Reads the stream type and payload length from a frame header.
pub fn decode_frame_header(header: &[u8; 8]) -> (r: (u8, usize))
    ensures
        r.0 == header@[0],
        r.1 == header@[4] as int * 0x1000000 + header@[5] as int * 0x10000 + header@[6] as int
            * 0x100 + header@[7] as int,
{
    let len: u32 = (header[4] as u32) * 0x1000000 + (header[5] as u32) * 0x10000 + (header[6] as u32)
        * 0x100 + (header[7] as u32);
    (header[0], len as usize)
}

/// Decoding the header of an encoded frame gives back the stream type and
/// the payload length, for any payload shorter than 4 GiB.
pub proof fn lemma_frame_header_round_trip(stream_type: u8, len: u32, header: Seq<u8>)
    requires
        header == frame_header(stream_type, len),
    ensures
        header[0] == stream_type,
        header[4] as int * 0x1000000 + header[5] as int * 0x10000 + header[6] as int * 0x100
            + header[7] as int == len as int,
{
    assert(header[4] == (len / 0x1000000) as u8);
    assert(header[5] == ((len / 0x10000) % 0x100) as u8);
    assert(header[6] == ((len / 0x100) % 0x100) as u8);
    assert(header[7] == (len % 0x100) as u8);
    assert((len / 0x1000000) as u8 as int * 0x1000000 + ((len / 0x10000) % 0x100) as u8 as int
        * 0x10000 + ((len / 0x100) % 0x100) as u8 as int * 0x100 + (len % 0x100) as u8 as int
        == len as int) by (bit_vector);
}

/// The payload length that a frame header's last four bytes give.
pub open spec fn header_len(buf: Seq<u8>) -> int {
    buf[4] as int * 0x1000000 + buf[5] as int * 0x10000 + buf[6] as int * 0x100 + buf[7] as int
}

/// The frame at the start of `buf`: its stream type and payload, when the
/// buffer holds the whole header and payload.
pub open spec fn decoded_frame(buf: Seq<u8>) -> Option<(u8, Seq<u8>)> {
    if buf.len() < 8 || buf.len() < 8 + header_len(buf) {
        None
    } else {
        Some((buf[0], buf.subrange(8, 8 + header_len(buf))))
    }
}

/// Reads the frame at the start of `buf`: its stream type and payload;
/// `None` when the buffer ends before the header or the payload does.
pub fn decode_frame(buf: &[u8]) -> (r: Option<(u8, Vec<u8>)>)
    ensures
        match decoded_frame(buf@) {
            None => r is None,
            Some((t, p)) => r matches Some((t2, v)) && t2 == t && v@ == p,
        },
{
    if buf.len() < 8 {
        return None;
    }
    let header: [u8; 8] = [buf[0], buf[1], buf[2], buf[3], buf[4], buf[5], buf[6], buf[7]];
    let (stream_type, len) = decode_frame_header(&header);
    assert(len == header_len(buf@));
    if buf.len() - 8 < len {
        return None;
    }
    let payload = vstd::slice::slice_to_vec(vstd::slice::slice_subrange(buf, 8, 8 + len));
    Some((stream_type, payload))
}

/// Decoding an encoded frame gives back its stream type and payload, for any
/// payload shorter than 4 GiB; bytes after the frame are not read.
pub proof fn lemma_frame_round_trip(stream_type: u8, data: Seq<u8>, rest: Seq<u8>)
    requires
        data.len() < 0x1_0000_0000,
    ensures
        decoded_frame(frame_header(stream_type, data.len() as u32) + data + rest) == Some(
            (stream_type, data),
        ),
{
    let h = frame_header(stream_type, data.len() as u32);
    let buf = h + data + rest;
    lemma_frame_header_round_trip(stream_type, data.len() as u32, h);
    assert(buf[0] == h[0]);
    assert(buf[4] == h[4] && buf[5] == h[5] && buf[6] == h[6] && buf[7] == h[7]);
    assert(header_len(buf) == data.len());
    assert(buf.subrange(8, 8 + data.len() as int) =~= data);
}

} // verus!
