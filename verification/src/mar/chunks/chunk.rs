use vstd::prelude::*;

use super::chunk_header::ChunkHeader;
use super::crc_padded_stream::{crc16_xmodem, u16_le, CRCPaddedStream};

verus! {

/// One chunk of a message. Only Chunks v2 is supported: the CRC is deferred
/// to the end of the last chunk of the message.
pub struct Chunk {
    bytes: Vec<u8>,
}

impl View for Chunk {
    type V = Seq<u8>;

    closed spec fn view(&self) -> Seq<u8> {
        self.bytes@
    }
}

impl Chunk {
    /// A single chunk holding the whole message: the header byte, the message
    /// and its CRC.
    pub fn new_single(message: Vec<u8>) -> (r: Self)
        ensures
            r@ == seq![0x08u8] + message@ + u16_le(crc16_xmodem(message@)),
    {
        let header = ChunkHeader::new_single();
        let mut bytes: Vec<u8> = Vec::new();
        bytes.extend_from_slice(header.as_bytes());
        let mut padded = CRCPaddedStream::new(message).into_bytes();
        let ghost h = bytes@;
        bytes.append(&mut padded);
        proof {
            assert(h == seq![0x08u8]);
            assert(bytes@ =~= seq![0x08u8] + message@ + u16_le(crc16_xmodem(message@)));
        }
        Chunk { bytes }
    }

    pub fn stream_len(&self) -> (r: u64)
        requires
            self@.len() <= u64::MAX,
        ensures
            r == self@.len(),
    {
        self.bytes.len() as u64
    }

    pub fn into_bytes(self) -> (r: Vec<u8>)
        ensures
            r@ == self@,
    {
        self.bytes
    }
}

} // verus!
