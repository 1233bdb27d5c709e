use vstd::prelude::*;

verus! {

/// One step of CRC-16/XMODEM over a bit: shift left, and where the bit
/// shifted out was set, xor the polynomial `0x1021`.
pub open spec fn crc16_xmodem_shift(crc: u16) -> u16 {
    if crc & 0x8000u16 != 0 {
        ((crc << 1u16) ^ 0x1021u16) as u16
    } else {
        (crc << 1u16) as u16
    }
}

/// `n` steps of `crc16_xmodem_shift`.
pub open spec fn crc16_xmodem_shifts(crc: u16, n: nat) -> u16
    decreases n,
{
    if n == 0 {
        crc
    } else {
        crc16_xmodem_shifts(crc16_xmodem_shift(crc), (n - 1) as nat)
    }
}

/// The CRC register after the bytes of `data`, from `crc`: each byte is
/// xored into the high byte of the register, most significant bit first,
/// then its eight bits are shifted out.
pub open spec fn crc16_xmodem_from(crc: u16, data: Seq<u8>) -> u16
    decreases data.len(),
{
    if data.len() == 0 {
        crc
    } else {
        crc16_xmodem_from(
            crc16_xmodem_shifts((crc ^ ((data[0] as u16) << 8u16)) as u16, 8),
            data.drop_first(),
        )
    }
}

/// CRC-16/XMODEM of `data`: polynomial `0x1021`, initial value `0`, bits
/// not reflected, no final xor.
pub open spec fn crc16_xmodem(data: Seq<u8>) -> u16 {
    crc16_xmodem_from(0, data)
}

/// `crc::Crc::<u16>::new(&CRC_16_XMODEM).checksum`: the CRC-16/XMODEM of
/// the bytes (the crate's table-driven computation of `crc16_xmodem`).
#[verifier::external_body]
fn crc16_xmodem_checksum(data: &[u8]) -> (r: u16)
    ensures
        r == crc16_xmodem(data@),
{
    crc::Crc::<u16>::new(&crc_catalog::CRC_16_XMODEM).checksum(data)
}

/// Number of bytes of the CRC that follows the data.
pub const CRC16_XMODEM_LENGTH: u64 = 2;

/// `v.to_le_bytes()` for a `u16`.
pub open spec fn u16_le(v: u16) -> Seq<u8> {
    seq![(v % 256) as u8, (v / 256) as u8]
}

/// A stream followed by its CRC-16/XMODEM, little endian.
pub struct CRCPaddedStream {
    bytes: Vec<u8>,
}

impl View for CRCPaddedStream {
    type V = Seq<u8>;

    closed spec fn view(&self) -> Seq<u8> {
        self.bytes@
    }
}

impl CRCPaddedStream {
    /// The stream followed by its CRC-16/XMODEM.
    pub fn new(stream: Vec<u8>) -> (r: Self)
        ensures
            r@ == stream@ + u16_le(crc16_xmodem(stream@)),
    {
        let crc = crc16_xmodem_checksum(stream.as_slice());
        Self::with_crc(stream, crc)
    }

    /// The stream followed by `crc`, little endian.
    pub fn with_crc(stream: Vec<u8>, crc: u16) -> (r: Self)
        ensures
            r@ == stream@ + u16_le(crc),
    {
        let mut bytes = stream;
        bytes.push((crc % 256) as u8);
        bytes.push((crc / 256) as u8);
        CRCPaddedStream { bytes }
    }

    /// Number of bytes: those of the stream and two of CRC.
    pub fn stream_len(&self) -> (r: u64)
        requires
            self@.len() <= u64::MAX,
        ensures
            r == self@.len(),
    {
        self.bytes.len() as u64
    }

    pub fn into_bytes(self) -> (r: Vec<u8>)
        ensures
            r@ == self@,
    {
        self.bytes
    }
}

} // verus!
