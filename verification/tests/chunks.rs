use memfaultd::mar::chunks::chunk::Chunk;
use memfaultd::mar::chunks::chunk_header::{ChunkHeader, ChunkType};
use memfaultd::mar::chunks::chunk_message::{ChunkMessage, ChunkMessageType};
use memfaultd::mar::chunks::chunk_wrapper::ChunkWrapper;
use memfaultd::mar::chunks::crc_padded_stream::CRCPaddedStream;

const KNOWN_GOOD_CHUNK: [u8; 87] = [
    0x8, 0x2, 0xa7, 0x2, 0x1, 0x3, 0x1, 0x7, 0x6a, 0x54, 0x45, 0x53, 0x54, 0x53, 0x45, 0x52,
    0x49, 0x41, 0x4c, 0xa, 0x6d, 0x74, 0x65, 0x73, 0x74, 0x2d, 0x73, 0x6f, 0x66, 0x74, 0x77,
    0x61, 0x72, 0x65, 0x9, 0x6a, 0x31, 0x2e, 0x30, 0x2e, 0x30, 0x2d, 0x74, 0x65, 0x73, 0x74,
    0x6, 0x6d, 0x74, 0x65, 0x73, 0x74, 0x2d, 0x68, 0x61, 0x72, 0x64, 0x77, 0x61, 0x72, 0x65,
    0x4, 0xa1, 0x1, 0xa1, 0x72, 0x63, 0x68, 0x75, 0x6e, 0x6b, 0x5f, 0x74, 0x65, 0x73, 0x74,
    0x5f, 0x73, 0x75, 0x63, 0x63, 0x65, 0x73, 0x73, 0x1, 0x31, 0xe4,
];

#[test]
fn test_single_chunk_message() {
    // Remove 2 bytes chunk header and 2 bytes CRC
    let data = KNOWN_GOOD_CHUNK[2..KNOWN_GOOD_CHUNK.len() - 2].to_vec();
    let message = ChunkMessage::new(ChunkMessageType::Event, data);
    let chunk = Chunk::new_single(message.into_bytes());
    assert_eq!(chunk.stream_len(), KNOWN_GOOD_CHUNK.len() as u64);
    assert_eq!(chunk.into_bytes(), KNOWN_GOOD_CHUNK.to_vec());
}

#[test]
fn single_chunk_header_is_one_byte() {
    let header = ChunkHeader::new_single();
    assert_eq!(header.as_bytes(), &[0x08]);
    assert_eq!(ChunkType::Init.value(), 0);
    assert_eq!(ChunkType::Cont.value(), 0x80);
}

#[test]
fn message_types() {
    let types = [
        (ChunkMessageType::Null, 0),
        (ChunkMessageType::McuCoredump, 1),
        (ChunkMessageType::Event, 2),
        (ChunkMessageType::Logs, 3),
        (ChunkMessageType::CustomDataRecording, 4),
        (ChunkMessageType::Mar, 5),
    ];
    for (t, v) in types {
        let m = ChunkMessage::new(t, vec![9, 9]);
        assert_eq!(m.stream_len(), 3);
        assert_eq!(m.into_bytes(), vec![v, 9, 9]);
    }
}

#[test]
fn crc_of_check_string() {
    // CRC-16/XMODEM check value of "123456789" is 0x31c3, written little endian
    let padded = CRCPaddedStream::new(b"123456789".to_vec());
    assert_eq!(padded.stream_len(), 11);
    let bytes = padded.into_bytes();
    assert_eq!(&bytes[9..], &[0xc3, 0x31]);
}

#[test]
fn wrapper_adds_magic_and_length() {
    let chunk = vec![1u8; 300];
    let wrapped = ChunkWrapper::new(chunk.clone());
    assert_eq!(wrapped.stream_len(), 308);
    let bytes = wrapped.into_bytes();
    assert_eq!(&bytes[0..4], b"CHNK");
    assert_eq!(&bytes[4..8], &300u32.to_be_bytes());
    assert_eq!(&bytes[8..], chunk.as_slice());
}
