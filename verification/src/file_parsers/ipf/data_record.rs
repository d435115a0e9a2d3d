//! The data record of an IPF image: the size and CRC of an extra data block, and the key of
//! the image record that it belongs to.
use vstd::prelude::*;
use crate::file_parsers::bytes::{be32, read_u32_be};
use crate::file_parsers::ipf::ipf::IpfError;

verus! {

/// A data record.
#[derive(Clone, Copy, Debug, PartialEq, Eq, Structural)]
pub struct DataRecord {
    /// The length of the extra data block (or 0).
    pub length: u32,
    /// The size of the data area in bits.
    pub bit_size: u32,
    /// The CRC32 of the extra data block.
    pub crc: u32,
    /// The key of the image record that the block belongs to.
    pub data_key: u32,
}

/// The data record that the first sixteen bytes of `s` hold (big endian words).
pub open spec fn data_record_of(s: Seq<u8>) -> DataRecord {
    DataRecord {
        length: be32(s, 0) as u32,
        bit_size: be32(s, 4) as u32,
        crc: be32(s, 8) as u32,
        data_key: be32(s, 12) as u32,
    }
}

impl DataRecord {
    /// Read a data record from the data of its chunk.
    pub fn read(data: &[u8]) -> (r: Result<DataRecord, IpfError>)
        ensures
            data@.len() < 16 ==> r == Err::<DataRecord, IpfError>(IpfError::RecordTooShort),
            data@.len() >= 16 ==> r == Ok::<DataRecord, IpfError>(data_record_of(data@)),
    {
        let length = match read_u32_be(data, 0) { Some(v) => v, None => return Err(IpfError::RecordTooShort) };
        let bit_size = match read_u32_be(data, 4) { Some(v) => v, None => return Err(IpfError::RecordTooShort) };
        let crc = match read_u32_be(data, 8) { Some(v) => v, None => return Err(IpfError::RecordTooShort) };
        let data_key = match read_u32_be(data, 12) { Some(v) => v, None => return Err(IpfError::RecordTooShort) };
        Ok(DataRecord { length, bit_size, crc, data_key })
    }

    /// The key of the image record that this data belongs to.
    pub fn key(&self) -> (r: u32)
        ensures
            r == self.data_key,
    {
        self.data_key
    }
}

} // verus!
