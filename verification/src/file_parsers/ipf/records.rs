//! Reading the records of an IPF image: after the CAPS chunk, the INFO record, the IMGE
//! record of each track and the DATA record of each track, whose extra data block starts
//! with the track's block descriptors.
use vstd::prelude::*;
use crate::file_parsers::bytes::be32;
use crate::file_parsers::ipf::chunk::{chunk_data_len, chunk_type_of, read_chunk_outcome, IpfChunkType};
use crate::file_parsers::ipf::data_block::{descriptor_at, descriptor_len, BlockDescriptor};
use crate::file_parsers::ipf::data_record::{data_record_of, DataRecord};
use crate::file_parsers::ipf::image_record::{image_record_of, ImageRecord, IMAGE_RECORD_SIZE};
use crate::file_parsers::ipf::info_record::{info_record_of, word, InfoRecord, INFO_RECORD_SIZE};
use crate::file_parsers::ipf::ipf::{IpfError, IpfParser};
use crate::file_parsers::ipf::v2_track::DataRecordInfo;

verus! {

/// The data record of a track, as plain values.
pub struct DataInfoView {
    pub record: DataRecord,
    pub edb: int,
    pub blocks: Seq<BlockDescriptor>,
}

/// The data records of a list, as plain values.
pub open spec fn data_info_views(v: Seq<DataRecordInfo>) -> Seq<DataInfoView> {
    v.map_values(|d: DataRecordInfo| DataInfoView { record: d.data_record, edb: d.edb_offset as int, blocks: d.blocks@ })
}

/// The state of the reading of the records.
pub struct IpfRecordsState {
    /// Where the next chunk starts.
    pub pos: int,
    /// The encoder type of the last INFO record (0 before one).
    pub encoder_type: u32,
    /// The data of each IMGE chunk read.
    pub images: Seq<Seq<u8>>,
    /// The DATA records read.
    pub datas: Seq<DataInfoView>,
    /// The data of the last INFO chunk read.
    pub info: Option<Seq<u8>>,
}

/// The index of the last IMGE record read with the key `key`.
pub open spec fn last_image_with_key(images: Seq<Seq<u8>>, key: u32) -> Option<int>
    decreases images.len(),
{
    if images.len() == 0 {
        None
    } else if word(images.last(), 13) == key {
        Some(images.len() - 1)
    } else {
        last_image_with_key(images.drop_last(), key)
    }
}

/// The `count` block descriptors at `p`, if the image holds them all.
pub open spec fn descriptors_at(s: Seq<u8>, p: int, encoder_type: u32, count: nat) -> Option<Seq<BlockDescriptor>> {
    if p + count * descriptor_len(encoder_type) <= s.len() {
        Some(Seq::new(count, |i: int| descriptor_at(s, p + i * descriptor_len(encoder_type), encoder_type)))
    } else {
        None
    }
}

/// What reading one chunk of the records gives.
pub enum IpfRecordsStep {
    /// No whole, sound chunk is left: the reading ends.
    Stop,
    Failed(IpfError),
    Next(IpfRecordsState),
}

/// Read the chunk at `st.pos`. An INFO chunk sets the encoder type; an IMGE chunk adds a
/// track record; a DATA chunk must name an IMGE record read before it, whose block count
/// says how many block descriptors follow the chunk, and its extra data block must end
/// within the image, where the next chunk starts. Other chunks are passed over.
pub open spec fn ipf_records_step(s: Seq<u8>, st: IpfRecordsState) -> IpfRecordsStep {
    if st.pos < 0 || read_chunk_outcome(s, st.pos) is Some {
        IpfRecordsStep::Stop
    } else {
        let pos = st.pos;
        let size = be32(s, pos + 4) as u32;
        let len = chunk_data_len(size, None);
        let d = s.subrange(pos + 12, pos + 12 + len);
        let next = pos + 12 + len;
        let ty = chunk_type_of(s.subrange(pos, pos + 4));
        if ty == Some(IpfChunkType::Info) {
            if d.len() < INFO_RECORD_SIZE {
                IpfRecordsStep::Failed(IpfError::RecordTooShort)
            } else {
                IpfRecordsStep::Next(IpfRecordsState { pos: next, encoder_type: word(d, 1), info: Some(d), ..st })
            }
        } else if ty == Some(IpfChunkType::Image) {
            if d.len() < IMAGE_RECORD_SIZE {
                IpfRecordsStep::Failed(IpfError::RecordTooShort)
            } else {
                IpfRecordsStep::Next(IpfRecordsState { pos: next, images: st.images.push(d), ..st })
            }
        } else if ty == Some(IpfChunkType::Data) {
            if d.len() < 16 {
                IpfRecordsStep::Failed(IpfError::RecordTooShort)
            } else {
                let dr = data_record_of(d);
                match last_image_with_key(st.images, dr.data_key) {
                    None => IpfRecordsStep::Failed(IpfError::NoImageRecord),
                    Some(k) => match descriptors_at(s, next, st.encoder_type, word(st.images[k], 10) as nat) {
                        None => IpfRecordsStep::Failed(IpfError::ReadError),
                        Some(blocks) => if next + dr.length > s.len() {
                            IpfRecordsStep::Failed(IpfError::RecordOutOfRange)
                        } else {
                            IpfRecordsStep::Next(IpfRecordsState {
                                pos: next + dr.length,
                                datas: st.datas.push(DataInfoView { record: dr, edb: next, blocks }),
                                ..st
                            })
                        },
                    },
                }
            }
        } else {
            IpfRecordsStep::Next(IpfRecordsState { pos: next, ..st })
        }
    }
}

/// Read the chunks from `st.pos` on, up to the first that is not whole and sound.
pub open spec fn ipf_records_run(s: Seq<u8>, st: IpfRecordsState) -> Result<IpfRecordsState, IpfError>
    decreases s.len() - st.pos,
{
    match ipf_records_step(s, st) {
        IpfRecordsStep::Stop => Ok(st),
        IpfRecordsStep::Failed(e) => Err(e),
        IpfRecordsStep::Next(st2) => if st2.pos <= st.pos || st2.pos > s.len() {
            Err(IpfError::ReadError)
        } else {
            ipf_records_run(s, st2)
        },
    }
}

/// The records of an image: its first chunk must be a sound CAPS chunk; the records follow.
pub open spec fn ipf_read_records(s: Seq<u8>) -> Result<IpfRecordsState, IpfError> {
    match read_chunk_outcome(s, 0) {
        Some(e) => Err(e),
        None => if chunk_type_of(s.subrange(0, 4)) != Some(IpfChunkType::Caps) {
            Err(IpfError::UnknownFormat)
        } else {
            ipf_records_run(
                s,
                IpfRecordsState {
                    pos: 12 + chunk_data_len(be32(s, 4) as u32, None),
                    encoder_type: 0,
                    images: Seq::empty(),
                    datas: Seq::empty(),
                    info: None,
                },
            )
        },
    }
}

/// Whether track `a` of `images` comes before track `b`: by cylinder, then head, then the
/// order in which they were read.
pub open spec fn track_before(images: Seq<ImageRecord>, a: int, b: int) -> bool {
    let ca = images[a].track as u16;
    let cb = images[b].track as u16;
    let ha = images[a].side as u8;
    let hb = images[b].side as u8;
    ca < cb || (ca == cb && (ha < hb || (ha == hb && a < b)))
}

/// Whether `order` lists the indices of `images` in track order.
pub open spec fn in_track_order(images: Seq<ImageRecord>, order: Seq<usize>) -> bool {
    &&& order.len() == images.len()
    &&& forall|j: int| 0 <= j < order.len() ==> order[j] < images.len()
    &&& forall|j: int, k: int| 0 <= j < k < order.len() ==> track_before(images, order[j] as int, order[k] as int)
}

/// The records of an IPF image.
pub struct IpfRecords {
    pub info: InfoRecord,
    pub images: Vec<ImageRecord>,
    pub datas: Vec<DataRecordInfo>,
    /// The indices of `images` in track order.
    pub order: Vec<usize>,
}

/// Whether the track of `a` is at or before that of `b` (by cylinder, then head).
pub open spec fn key_le_spec(a: ImageRecord, b: ImageRecord) -> bool {
    (a.track as u16) < (b.track as u16) || ((a.track as u16) == (b.track as u16) && (a.side as u8) <= (b.side as u8))
}

fn key_le(a: &ImageRecord, b: &ImageRecord) -> (r: bool)
    ensures
        r == key_le_spec(*a, *b),
{
    let ca = a.track as u16;
    let cb = b.track as u16;
    ca < cb || (ca == cb && (a.side as u8) <= (b.side as u8))
}

impl IpfParser {
    /// The indices of `images` in track order (see [in_track_order]): by cylinder and head,
    /// records of the same track in the order they were read.
    pub fn sort_tracks(images: &Vec<ImageRecord>) -> (order: Vec<usize>)
        ensures
            in_track_order(images@, order@),
    {
        let mut order: Vec<usize> = Vec::new();
        let mut i: usize = 0;
        while i < images.len()
            invariant
                i <= images@.len(),
                order@.len() == i,
                forall|j: int| 0 <= j < order@.len() ==> order@[j] < i,
                forall|j: int, k: int| 0 <= j < k < order@.len() ==> track_before(images@, order@[j] as int, order@[k] as int),
            decreases images.len() - i,
        {
            let mut p: usize = 0;
            while p < order.len() && key_le(&images[order[p]], &images[i])
                invariant
                    i < images@.len(),
                    p <= order@.len(),
                    forall|j: int| 0 <= j < order@.len() ==> order@[j] < i,
                    forall|j: int| 0 <= j < p ==> #[trigger] key_le_spec(images@[order@[j] as int], images@[i as int]),
                decreases order.len() - p,
            {
                p += 1;
            }
            let ghost old_order = order@;
            order.insert(p, i);
            assert(order@ == old_order.insert(p as int, i));
            assert forall|j: int, k: int| 0 <= j < k < order@.len() implies track_before(images@, order@[j] as int, order@[k] as int) by {
                if k < p {
                    assert(track_before(images@, old_order[j] as int, old_order[k] as int));
                } else if k == p {
                    assert(key_le_spec(images@[old_order[j] as int], images@[i as int]));
                } else if j < p {
                    assert(track_before(images@, old_order[j] as int, old_order[k - 1] as int));
                } else if j == p {
                    assert(!key_le_spec(images@[old_order[p as int] as int], images@[i as int]));
                    if p < k - 1 {
                        assert(track_before(images@, old_order[p as int] as int, old_order[k - 1] as int));
                    }
                } else {
                    assert(track_before(images@, old_order[j - 1] as int, old_order[k - 1] as int));
                }
            }
            i += 1;
        }
        order
    }
}


/// The IMGE records read, with the chunk data that each was read from.
pub open spec fn images_match(images: Seq<ImageRecord>, data: Seq<Seq<u8>>) -> bool {
    &&& images.len() == data.len()
    &&& forall|i: int| 0 <= i < data.len() ==> image_record_of(#[trigger] data[i], images[i])
}

/// The INFO record read, with the chunk data that it was read from.
pub open spec fn info_matches(info: Option<InfoRecord>, data: Option<Seq<u8>>) -> bool {
    match data {
        Some(d) => info matches Some(rec) && info_record_of(d, rec),
        None => info is None,
    }
}

fn find_image(images: &Vec<ImageRecord>, Ghost(data): Ghost<Seq<Seq<u8>>>, key: u32) -> (r: Option<usize>)
    requires
        images_match(images@, data),
    ensures
        last_image_with_key(data, key) == (match r {
            Some(k) => Some(k as int),
            None => None::<int>,
        }),
        r matches Some(k) ==> k < images@.len(),
{
    let mut j = images.len();
    assert(data.take(j as int) =~= data);
    while j > 0
        invariant
            images_match(images@, data),
            j <= images@.len(),
            last_image_with_key(data, key) == last_image_with_key(data.take(j as int), key),
        decreases j,
    {
        assert(data.take(j as int).drop_last() =~= data.take(j - 1));
        assert(data.take(j as int).last() == data[j - 1]);
        if images[j - 1].data_key == key {
            return Some(j - 1);
        }
        j -= 1;
    }
    None
}

fn read_descriptors(image: &[u8], start: usize, encoder_type: u32, count: u32) -> (r: Option<Vec<BlockDescriptor>>)
    requires
        start <= image.len(),
    ensures
        descriptors_at(image@, start as int, encoder_type, count as nat) == (match r {
            Some(v) => Some(v@),
            None => None::<Seq<BlockDescriptor>>,
        }),
{
    let ghost dlen = descriptor_len(encoder_type);
    let mut blocks: Vec<BlockDescriptor> = Vec::new();
    let mut p = start;
    let mut i: u32 = 0;
    while i < count
        invariant
            start <= image.len(),
            dlen == descriptor_len(encoder_type),
            dlen == 24 || dlen == 32,
            i <= count,
            p == start + i * dlen,
            p <= image.len(),
            blocks@ =~= Seq::new(i as nat, |j: int| descriptor_at(image@, start + j * dlen, encoder_type)),
        decreases count - i,
    {
        match BlockDescriptor::read_args(image, p, encoder_type) {
            Some((d, n)) => {
                blocks.push(d);
                p = n;
                proof {
                    assert(start + (i + 1) * dlen == start + i * dlen + dlen) by (nonlinear_arith);
                }
                i += 1;
            },
            None => {
                proof {
                    assert(start + count * dlen >= start + i * dlen + dlen) by (nonlinear_arith)
                        requires
                            i < count,
                            dlen >= 0,
                    ;
                }
                return None;
            },
        }
    }
    Some(blocks)
}

fn finish_records(
    info: Option<InfoRecord>,
    images: Vec<ImageRecord>,
    datas: Vec<DataRecordInfo>,
) -> (r: Result<IpfRecords, IpfError>)
    ensures
        info is None ==> r == Err::<IpfRecords, IpfError>(IpfError::NoInfoRecord),
        info matches Some(rec) ==> (r matches Ok(recs) && recs.info == rec && recs.images@ == images@
            && recs.datas@ == datas@ && in_track_order(images@, recs.order@)),
{
    let order = IpfParser::sort_tracks(&images);
    match info {
        Some(rec) => Ok(IpfRecords { info: rec, images, datas, order }),
        None => Err(IpfError::NoInfoRecord),
    }
}

impl IpfParser {
    /// Read the records of an IPF image (see [ipf_read_records]): the CAPS chunk, then the
    /// chunks up to the first that is not whole and sound. The image must hold an INFO
    /// record. The IMGE records are returned with their track order.
    pub fn read_records(image: &[u8]) -> (r: Result<IpfRecords, IpfError>)
        ensures
            match ipf_read_records(image@) {
                Err(e) => r == Err::<IpfRecords, IpfError>(e),
                Ok(st) => match st.info {
                    None => r == Err::<IpfRecords, IpfError>(IpfError::NoInfoRecord),
                    Some(d) => r matches Ok(recs) && info_record_of(d, recs.info)
                        && images_match(recs.images@, st.images)
                        && data_info_views(recs.datas@) == st.datas
                        && in_track_order(recs.images@, recs.order@),
                },
            },
    {
        let (header, first_next) = match Self::read_chunk(image, 0) {
            Ok(x) => x,
            Err(e) => return Err(e),
        };
        match header.chunk_type {
            Some(IpfChunkType::Caps) => {},
            _ => return Err(IpfError::UnknownFormat),
        }
        let mut pos = first_next;
        let mut encoder_type: u32 = 0;
        let mut images: Vec<ImageRecord> = Vec::new();
        let mut datas: Vec<DataRecordInfo> = Vec::new();
        let mut info: Option<InfoRecord> = None;
        let ghost mut image_data: Seq<Seq<u8>> = Seq::empty();
        let ghost mut info_data: Option<Seq<u8>> = None;
        let ghost target = ipf_read_records(image@);
        assert(data_info_views(datas@) =~= Seq::<DataInfoView>::empty());
        loop
            invariant
                target == ipf_read_records(image@),
                pos <= image.len(),
                images_match(images@, image_data),
                info_matches(info, info_data),
                target == ipf_records_run(
                    image@,
                    IpfRecordsState {
                        pos: pos as int,
                        encoder_type,
                        images: image_data,
                        datas: data_info_views(datas@),
                        info: info_data,
                    },
                ),
            decreases image.len() - pos,
        {
            let ghost st = IpfRecordsState {
                pos: pos as int,
                encoder_type,
                images: image_data,
                datas: data_info_views(datas@),
                info: info_data,
            };
            let (chunk, next) = match Self::read_chunk(image, pos) {
                Ok(x) => x,
                Err(_) => return finish_records(info, images, datas),
            };
            match chunk.chunk_type {
                Some(IpfChunkType::Info) => {
                    let rec = match InfoRecord::read(chunk.data.as_slice()) {
                        Ok(r) => r,
                        Err(e) => return Err(e),
                    };
                    encoder_type = rec.encoder_type;
                    info = Some(rec);
                    proof {
                        info_data = Some(chunk.data@);
                    }
                    pos = next;
                },
                Some(IpfChunkType::Image) => {
                    let rec = match ImageRecord::read(chunk.data.as_slice()) {
                        Ok(r) => r,
                        Err(e) => return Err(e),
                    };
                    images.push(rec);
                    proof {
                        image_data = image_data.push(chunk.data@);
                        assert(images_match(images@, image_data)) by {
                            assert forall|i: int| 0 <= i < image_data.len() implies image_record_of(#[trigger] image_data[i], images@[i]) by {
                                if i < image_data.len() - 1 {
                                    assert(image_data[i] == st.images[i]);
                                }
                            }
                        }
                    }
                    pos = next;
                },
                Some(IpfChunkType::Data) => {
                    let dr = match DataRecord::read(chunk.data.as_slice()) {
                        Ok(r) => r,
                        Err(e) => return Err(e),
                    };
                    let k = match find_image(&images, Ghost(image_data), dr.data_key) {
                        Some(k) => k,
                        None => return Err(IpfError::NoImageRecord),
                    };
                    assert(image_record_of(image_data[k as int], images@[k as int]));
                    let blocks = match read_descriptors(image, next, encoder_type, images[k].block_count) {
                        Some(b) => b,
                        None => return Err(IpfError::ReadError),
                    };
                    if dr.length as usize > image.len() - next {
                        return Err(IpfError::RecordOutOfRange);
                    }
                    let ghost before = data_info_views(datas@);
                    let ghost bv = blocks@;
                    datas.push(DataRecordInfo { data_record: dr, edb_offset: next, blocks });
                    assert(data_info_views(datas@) =~= before.push(DataInfoView { record: dr, edb: next as int, blocks: bv }));
                    pos = next + dr.length as usize;
                },
                _ => {
                    pos = next;
                },
            }
        }
    }
}

} // verus!
