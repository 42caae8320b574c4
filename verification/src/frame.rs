use vstd::prelude::*;

use crate::errors::CapError;

verus! {

/// The number of bytes in a link-layer header: two 6-byte addresses and a
/// 2-byte type field.
pub const HEADER_LEN: usize = 14;

/// A decoded link-layer header. Ephemeral: derived from a captured buffer,
/// never persisted.
#[derive(Clone, Copy, Debug)]
pub struct Frame {
    /// Destination hardware address, bytes 0..6 of the buffer.
    pub eth_dst: [u8; 6],
    /// Source hardware address, bytes 6..12 of the buffer.
    pub eth_src: [u8; 6],
    /// Protocol type field, bytes 12..14 of the buffer, big-endian.
    pub eth_type: u16,
}

/// A 16-bit big-endian value read from two bytes.
pub open spec fn be16(hi: u8, lo: u8) -> int {
    hi * 256 + lo
}

/// Whether `f` is exactly the header decoded from `data`.
pub open spec fn frame_of(f: Frame, data: Seq<u8>) -> bool {
    &&& f.eth_dst@ == data.subrange(0, 6)
    &&& f.eth_src@ == data.subrange(6, 12)
    &&& f.eth_type == be16(data[12], data[13])
}

/// Decodes the fixed-size link-layer header from a captured buffer:
/// destination address, then source address, then the big-endian type field.
/// Payload bytes beyond the header are ignored; fewer than 14 bytes is a
/// truncated input.
pub fn parse(data: &Vec<u8>) -> (r: Result<Frame, CapError>)
    ensures
        match r {
            Ok(f) => data@.len() >= HEADER_LEN && frame_of(f, data@),
            Err(e) => data@.len() < HEADER_LEN && e == CapError::TruncatedInput,
        },
{
    if data.len() < HEADER_LEN {
        return Err(CapError::TruncatedInput);
    }
    let eth_dst: [u8; 6] = [data[0], data[1], data[2], data[3], data[4], data[5]];
    let eth_src: [u8; 6] = [data[6], data[7], data[8], data[9], data[10], data[11]];
    let eth_type: u16 = (data[12] as u16) * 256 + (data[13] as u16);
    proof {
        assert(eth_dst@ =~= data@.subrange(0, 6));
        assert(eth_src@ =~= data@.subrange(6, 12));
    }
    Ok(Frame { eth_dst, eth_src, eth_type })
}

} // verus!
