//! The Memfault chunk format: MAR data wrapped for the chunks endpoint.
pub mod chunk;
pub mod chunk_header;
pub mod chunk_message;
pub mod chunk_wrapper;
pub mod crc_padded_stream;
