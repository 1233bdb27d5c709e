use vstd::prelude::*;

verus! {

/// `v.to_be_bytes()` for a `u32`.
pub open spec fn u32_be(v: u32) -> Seq<u8> {
    seq![
        (v / 0x1000000) as u8,
        ((v / 0x10000) % 256) as u8,
        ((v / 0x100) % 256) as u8,
        (v % 256) as u8,
    ]
}

/// The identifier that starts a wrapped chunk: `CHNK`.
pub open spec fn chunk_magic() -> Seq<u8> {
    seq![0x43u8, 0x48u8, 0x4eu8, 0x4bu8]
}

/// A chunk preceded by an identifier and its length, so that several chunks
/// can be concatenated in one file:
///  - 4 identifier bytes: 'C' 'H' 'N' 'K'
///  - chunk length (4 bytes, big endian, the length truncated to 32 bits)
///
/// This format is not accepted by the Memfault API: the wrapper has to be
/// removed before the chunks are sent.
pub struct ChunkWrapper {
    bytes: Vec<u8>,
}

impl View for ChunkWrapper {
    type V = Seq<u8>;

    closed spec fn view(&self) -> Seq<u8> {
        self.bytes@
    }
}

impl ChunkWrapper {
    pub fn new(chunk: Vec<u8>) -> (r: Self)
        ensures
            r@ == chunk_magic() + u32_be((chunk@.len() % 0x1_0000_0000) as u32) + chunk@,
    {
        let len = (chunk.len() as u64 % 0x1_0000_0000u64) as u32;
        let mut bytes: Vec<u8> = Vec::new();
        bytes.push(0x43u8);
        bytes.push(0x48u8);
        bytes.push(0x4eu8);
        bytes.push(0x4bu8);
        bytes.push((len / 0x1000000) as u8);
        bytes.push(((len / 0x10000) % 256) as u8);
        bytes.push(((len / 0x100) % 256) as u8);
        bytes.push((len % 256) as u8);
        let ghost head = bytes@;
        let ghost orig = chunk@;
        let mut chunk = chunk;
        bytes.append(&mut chunk);
        proof {
            assert(head =~= chunk_magic() + u32_be((orig.len() % 0x1_0000_0000) as u32));
            assert(bytes@ =~= head + orig);
        }
        ChunkWrapper { bytes }
    }

    pub fn stream_len(&self) -> (r: u64)
        requires
            self@.len() <= u64::MAX,
        ensures
            r == self@.len(),
    {
        self.bytes.len() as u64
    }

    pub fn into_bytes(self) -> (r: Vec<u8>)
        ensures
            r@ == self@,
    {
        self.bytes
    }
}

} // verus!
