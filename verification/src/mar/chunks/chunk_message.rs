use vstd::prelude::*;

verus! {

/// A one-byte discriminator for the type of message being sent.
#[derive(Copy, Clone, PartialEq, Eq, Debug, Structural)]
pub enum ChunkMessageType {
    Null,
    McuCoredump,
    Event,
    Logs,
    CustomDataRecording,
    Mar,
}

impl ChunkMessageType {
    pub open spec fn spec_value(self) -> u8 {
        match self {
            ChunkMessageType::Null => 0,
            ChunkMessageType::McuCoredump => 1,
            ChunkMessageType::Event => 2,
            ChunkMessageType::Logs => 3,
            ChunkMessageType::CustomDataRecording => 4,
            ChunkMessageType::Mar => 5,
        }
    }

    /// The byte that identifies this type of message.
    pub fn value(&self) -> (r: u8)
        ensures
            r == self.spec_value(),
    {
        match self {
            ChunkMessageType::Null => 0,
            ChunkMessageType::McuCoredump => 1,
            ChunkMessageType::Event => 2,
            ChunkMessageType::Logs => 3,
            ChunkMessageType::CustomDataRecording => 4,
            ChunkMessageType::Mar => 5,
        }
    }
}

/// All data sent in chunks must be wrapped in a ChunkMessage: a one-byte
/// header giving the type of message, then the data.
pub struct ChunkMessage {
    stream: Vec<u8>,
}

impl View for ChunkMessage {
    type V = Seq<u8>;

    closed spec fn view(&self) -> Seq<u8> {
        self.stream@
    }
}

impl ChunkMessage {
    pub fn new(message_type: ChunkMessageType, data: Vec<u8>) -> (r: Self)
        ensures
            r@ == seq![message_type.spec_value()] + data@,
    {
        let mut stream: Vec<u8> = Vec::new();
        stream.push(message_type.value());
        let mut data = data;
        stream.append(&mut data);
        ChunkMessage { stream }
    }

    /// Number of bytes of the message.
    pub fn stream_len(&self) -> (r: u64)
        requires
            self@.len() <= u64::MAX,
        ensures
            r == self@.len(),
    {
        self.stream.len() as u64
    }

    /// The bytes of the message.
    pub fn into_bytes(self) -> (r: Vec<u8>)
        ensures
            r@ == self@,
    {
        self.stream
    }
}

} // verus!
