//! The Interchangeable Preservation Format (IPF): a chunked container of track descriptions
//! in which every chunk carries a CRC.
pub mod chunk;
pub mod crc;
pub mod data_block;
pub mod data_record;
pub mod ipf;
pub mod records;
pub mod info_record;
pub mod image_record;
pub mod source_map;
pub mod stream_element;
pub mod v2_track;
