use vstd::prelude::*;

verus! {

/// Chunk protocol supports two types of chunks: Init and Cont.
#[derive(Copy, Clone, PartialEq, Eq, Debug, Structural)]
pub enum ChunkType {
    /// First chunk of a message (with `more_data` bit set if there is more data to follow).
    Init,
    /// All following chunks of a message (with more_data bit set, except for the last one).
    Cont,
}

impl ChunkType {
    pub open spec fn spec_value(self) -> u8 {
        match self {
            ChunkType::Init => 0,
            ChunkType::Cont => 0x80,
        }
    }

    /// The bits of the header byte that encode this type.
    pub fn value(&self) -> (r: u8)
        ensures
            r == self.spec_value(),
    {
        match self {
            ChunkType::Init => 0,
            ChunkType::Cont => 0x80,
        }
    }
}

pub const CHUNK_CHANNEL: u8 = 0;

pub const CHUNK_CHANNEL_MASK: u8 = 0x7;

pub const CHUNK_MORE_DATA_BIT: u8 = 0x40;

pub const CHUNK_CRC_DEFERRED_BIT: u8 = 0x08;

/// The header byte: the channel in the low three bits, the more-data bit,
/// the chunk type and the deferred-CRC bit.
pub open spec fn header_byte(channel_id: u8, chunk_type: ChunkType, more_data: bool) -> u8 {
    (channel_id & CHUNK_CHANNEL_MASK) | (if more_data {
        CHUNK_MORE_DATA_BIT
    } else {
        0u8
    }) | chunk_type.spec_value() | CHUNK_CRC_DEFERRED_BIT
}

/// Header of one Memfault Chunk. Only single-chunk messages are supported,
/// so the header is one byte.
pub struct ChunkHeader {
    channel_id: u8,
    chunk_type: ChunkType,
    more_data: bool,
    as_bytes: [u8; 1],
}

impl ChunkHeader {
    pub closed spec fn wf(&self) -> bool {
        self.as_bytes@ == seq![header_byte(self.channel_id, self.chunk_type, self.more_data)]
    }

    pub closed spec fn spec_bytes(&self) -> Seq<u8> {
        self.as_bytes@
    }

    /// Returns a header for one message encoded as a single chunk with
    /// deferred CRC.
    pub fn new_single() -> (r: Self)
        ensures
            r.spec_bytes() == seq![header_byte(CHUNK_CHANNEL, ChunkType::Init, false)],
            r.spec_bytes() == seq![0x08u8],
    {
        let mut header = ChunkHeader {
            channel_id: CHUNK_CHANNEL,
            chunk_type: ChunkType::Init,
            more_data: false,
            as_bytes: [0],
        };
        header.calculate_header_bytes();
        assert(header_byte(CHUNK_CHANNEL, ChunkType::Init, false) == 0x08u8) by (bit_vector);
        header
    }

    fn calculate_header_bytes(&mut self)
        ensures
            final(self).channel_id == old(self).channel_id,
            final(self).chunk_type == old(self).chunk_type,
            final(self).more_data == old(self).more_data,
            final(self).wf(),
    {
        let c = self.channel_id & CHUNK_CHANNEL_MASK;
        let m: u8 = if self.more_data {
            CHUNK_MORE_DATA_BIT
        } else {
            0
        };
        let t = self.chunk_type.value();
        let byte: u8 = c | m | t | CHUNK_CRC_DEFERRED_BIT;
        assert(byte == header_byte(self.channel_id, self.chunk_type, self.more_data));
        self.as_bytes = [byte];
        assert(self.as_bytes@ =~= seq![byte]);
    }

    /// Return a byte representation of the header.
    pub fn as_bytes(&self) -> (r: &[u8])
        ensures
            r@ == self.spec_bytes(),
    {
        self.as_bytes.as_slice()
    }
}

} // verus!
