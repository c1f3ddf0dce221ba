//! Framing of messages on a byte stream: a four-byte little-endian length, then the payload.
use vstd::prelude::*;

verus! {

/// The four little-endian bytes of `x`.
pub open spec fn le_bytes(x: u32) -> Seq<u8> {
    seq![(x % 256) as u8, ((x / 256) % 256) as u8, ((x / 65536) % 256) as u8, ((x / 16777216) % 256) as u8]
}

/// The number that the four little-endian bytes `b` encode.
pub open spec fn le_value(b: Seq<u8>) -> nat {
    b[0] as nat + 256 * (b[1] as nat) + 65536 * (b[2] as nat) + 16777216 * (b[3] as nat)
}

/// The frame of `payload`: its length, truncated to 32 bits, as a header, then the payload.
pub open spec fn frame(payload: Seq<u8>) -> Seq<u8> {
    le_bytes(payload.len() as u32) + payload
}

/// The payload a buffer that starts with a frame holds: the header's count of bytes after it.
pub open spec fn unframe(buf: Seq<u8>) -> Option<Seq<u8>> {
    if buf.len() < 4 {
        None
    } else if buf.len() < 4 + le_value(buf.take(4)) {
        None
    } else {
        Some(buf.subrange(4, 4 + le_value(buf.take(4)) as int))
    }
}

proof fn lemma_le_round_trip(x: u32)
    ensures
        le_value(le_bytes(x)) == x,
{
    let b0 = (x % 256) as u8;
    let b1 = ((x / 256) % 256) as u8;
    let b2 = ((x / 65536) % 256) as u8;
    let b3 = ((x / 16777216) % 256) as u8;
    assert(b0 as nat + 256 * (b1 as nat) + 65536 * (b2 as nat) + 16777216 * (b3 as nat) == x) by (nonlinear_arith)
        requires
            b0 == x % 256,
            b1 == (x / 256) % 256,
            b2 == (x / 65536) % 256,
            b3 == (x / 16777216) % 256,
            x < 0x1_0000_0000,
    ;
}

/// Law: a buffer that starts with the frame of a payload shorter than 2^32 bytes holds that
/// payload.
pub proof fn lemma_unframe_frame(payload: Seq<u8>, rest: Seq<u8>)
    requires
        payload.len() < 0x1_0000_0000,
    ensures
        unframe(frame(payload) + rest) == Some(payload),
{
    let n = payload.len() as u32;
    lemma_le_round_trip(n);
    let buf = frame(payload) + rest;
    assert(buf.take(4) =~= le_bytes(n));
    assert(buf.subrange(4, 4 + payload.len() as int) =~= payload);
}

/// Length-prefixed frames: a four-byte little-endian length, then that many bytes.
pub struct TcpPacket;

impl TcpPacket {
    /// The length of a frame's header in bytes.
    pub const HEADER_SIZE: usize = 4;

    /// The header of a payload of `len` bytes: the length as four little-endian bytes.
    pub fn header(len: usize) -> (r: [u8; 4])
        ensures
            r@ == le_bytes(len as u32),
    {
        let size: u32 = len as u32;
        let b0 = (size & 0xff) as u8;
        let b1 = ((size >> 8u32) & 0xff) as u8;
        let b2 = ((size >> 16u32) & 0xff) as u8;
        let b3 = ((size >> 24u32) & 0xff) as u8;
        assert(b0 == size % 256 && b1 == (size / 256) % 256 && b2 == (size / 65536) % 256 && b3
            == (size / 16777216) % 256) by (bit_vector)
            requires
                b0 == (size & 0xff) as u8,
                b1 == ((size >> 8u32) & 0xff) as u8,
                b2 == ((size >> 16u32) & 0xff) as u8,
                b3 == ((size >> 24u32) & 0xff) as u8,
        ;
        let r = [b0, b1, b2, b3];
        assert(r@ =~= le_bytes(size));
        r
    }

    /// The frame of an already serialized payload: its header, then the payload.
    pub fn serialize(payload: &Vec<u8>) -> (r: Vec<u8>)
        ensures
            r@ == frame(payload@),
    {
        let header = Self::header(payload.len());
        let mut buff: Vec<u8> = Vec::new();
        let mut i: usize = 0;
        while i < 4
            invariant
                i <= 4,
                buff@ == header@.take(i as int),
            decreases 4 - i,
        {
            buff.push(header[i]);
            i += 1;
            proof {
                assert(buff@ =~= header@.take(i as int));
            }
        }
        let mut k: usize = 0;
        while k < payload.len()
            invariant
                k <= payload@.len(),
                buff@ == header@ + payload@.take(k as int),
            decreases payload@.len() - k,
        {
            buff.push(payload[k]);
            k += 1;
            proof {
                assert(buff@ =~= header@ + payload@.take(k as int));
            }
        }
        proof {
            assert(header@.take(4) =~= header@);
            assert(payload@.take(k as int) =~= payload@);
        }
        buff
    }

    /// The payload size a header announces.
    pub fn payload_size(header: &[u8; 4]) -> (r: usize)
        ensures
            r == le_value(header@),
    {
        let b0 = header[0] as u32;
        let b1 = header[1] as u32;
        let b2 = header[2] as u32;
        let b3 = header[3] as u32;
        let v: u32 = b0 | (b1 << 8u32) | (b2 << 16u32) | (b3 << 24u32);
        assert(v == b0 + 256 * b1 + 65536 * b2 + 16777216 * b3) by (bit_vector)
            requires
                b0 < 256,
                b1 < 256,
                b2 < 256,
                b3 < 256,
                v == b0 | (b1 << 8u32) | (b2 << 16u32) | (b3 << 24u32),
        ;
        v as usize
    }

    /// The payload of the frame at the start of `buf`, or `None` when `buf` is shorter than the
    /// header or than the payload it announces.
    pub fn deserialize(buf: &Vec<u8>) -> (r: Option<Vec<u8>>)
        ensures
            match unframe(buf@) {
                Some(p) => (r matches Some(v) && v@ == p),
                None => r is None,
            },
    {
        if buf.len() < 4 {
            return None;
        }
        let header = [buf[0], buf[1], buf[2], buf[3]];
        proof {
            assert(header@ =~= buf@.take(4));
        }
        let size = Self::payload_size(&header);
        if buf.len() - 4 < size {
            return None;
        }
        let mut out: Vec<u8> = Vec::new();
        let mut i: usize = 0;
        let n = buf.len();
        while i < size
            invariant
                n == buf@.len(),
                i <= size,
                size + 4 <= buf@.len(),
                out@ == buf@.subrange(4, 4 + i),
            decreases size - i,
        {
            out.push(buf[4 + i]);
            i += 1;
            proof {
                assert(out@ =~= buf@.subrange(4, 4 + i));
            }
        }
        Some(out)
    }
}

} // verus!
