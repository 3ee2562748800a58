//! Reader for the `perf.data` (PERFILE2) container: extracts AUXTRACE
//! records carrying raw Intel PT bytes, and MMAP2 records describing the
//! traced memory image.

use vstd::prelude::*;
use vstd::slice::slice_subrange;

use crate::bitops::le_val;
use crate::decoder::{lemma_le_val_fits, lemma_slice_len_fits, read_le};

verus! {

/// The PERFILE2 magic, as a little-endian integer.
pub const PERF_MAGIC: u64 = 0x3245_4C49_4652_4550;

/// Record type of MMAP2 records.
pub const PERF_RECORD_MMAP2: u32 = 10;

/// Record type of AUXTRACE records.
pub const PERF_RECORD_AUXTRACE: u32 = 71;

/// Error for `perf.data` parsing.
#[derive(Debug, PartialEq, Eq, Clone, Copy)]
pub enum ReaderError {
    /// The file does not follow the PERFILE2 format
    InvalidPerfData,
    /// Unexpected EOF
    UnexpectedEOF,
    /// Unexpected reader error
    Unexpected,
}

/// Read the 2 little-endian bytes at `pos` of `data`.
pub fn read_u16(data: &[u8], pos: usize) -> (r: Option<u16>)
    ensures
        pos + 2 <= data@.len() ==> (r matches Some(v) && v == le_val(data@, pos as int, 2)),
        pos + 2 > data@.len() ==> r is None,
{
    match read_le(data, pos, 2) {
        Some(v) => {
            proof {
                lemma_le_val_fits(data@, pos as int, 2);
            }
            Some(v as u16)
        },
        None => None,
    }
}

/// Read the 4 little-endian bytes at `pos` of `data`.
pub fn read_u32(data: &[u8], pos: usize) -> (r: Option<u32>)
    ensures
        pos + 4 <= data@.len() ==> (r matches Some(v) && v == le_val(data@, pos as int, 4)),
        pos + 4 > data@.len() ==> r is None,
{
    match read_le(data, pos, 4) {
        Some(v) => {
            proof {
                lemma_le_val_fits(data@, pos as int, 4);
            }
            Some(v as u32)
        },
        None => None,
    }
}

/// Read the 8 little-endian bytes at `pos` of `data`.
pub fn read_u64(data: &[u8], pos: usize) -> (r: Option<u64>)
    ensures
        pos + 8 <= data@.len() ==> (r matches Some(v) && v == le_val(data@, pos as int, 8)),
        pos + 8 > data@.len() ==> r is None,
{
    read_le(data, pos, 8)
}

/// An extracted AUXTRACE record: raw Intel PT bytes with their origin.
#[derive(Debug)]
pub struct PerfRecordAuxtrace<'a> {
    /// Payload size in bytes
    pub size: u64,
    /// Offset in the AUX buffer
    pub offset: u64,
    /// Reference value
    pub reference: u64,
    /// AUX area index
    pub idx: u32,
    /// Thread id
    pub tid: u32,
    /// CPU number
    pub cpu: u32,
    /// The raw Intel PT bytes
    pub auxtrace_data: &'a [u8],
}

/// An extracted MMAP2 record: one mapping of the traced process.
#[derive(Debug)]
pub struct PerfMmap2Header {
    /// Process id
    pub pid: u32,
    /// Thread id
    pub tid: u32,
    /// Start address of the mapping
    pub addr: u64,
    /// Length of the mapping
    pub len: u64,
    /// Page offset of the mapping
    pub pgoff: u64,
    /// Inode data
    pub inode: [u8; 24],
    /// Protection flags
    pub prot: u32,
    /// Mapping flags
    pub flags: u32,
    /// Mapped file name: the bytes before the terminating NUL
    pub filename: Vec<u8>,
}

/// A parsed `perf_event_header`.
pub struct PerfEventHeader {
    /// Record type
    pub record_type: u32,
    /// Misc flags
    pub misc: u16,
    /// Total record size in bytes, header included
    pub size: u16,
}

/// Read one `perf_file_section` (offset and size) at `pos`.
fn read_perf_file_section(perf_data: &[u8], pos: usize) -> (r: Option<(u64, u64)>)
    ensures
        pos + 16 <= perf_data@.len() ==> r == Some(
            (
                le_val(perf_data@, pos as int, 8) as u64,
                le_val(perf_data@, pos + 8, 8) as u64,
            ),
        ),
        pos + 16 > perf_data@.len() ==> r is None,
{
    proof {
        lemma_slice_len_fits(perf_data);
    }
    let offset = match read_u64(perf_data, pos) {
        Some(v) => v,
        None => {
            return None;
        },
    };
    let size = match read_u64(perf_data, pos + 8) {
        Some(v) => v,
        None => {
            return None;
        },
    };
    Some((offset, size))
}

/// Read the PERFILE2 file header; returns the offset and size of the data
/// section.
fn read_perf_header(perf_data: &[u8]) -> (r: Result<(u64, u64), ReaderError>)
    ensures
        perf_data@.len() >= 56 && le_val(perf_data@, 0, 8) == PERF_MAGIC ==> r == Result::<
            (u64, u64),
            ReaderError,
        >::Ok((le_val(perf_data@, 40, 8) as u64, le_val(perf_data@, 48, 8) as u64)),
        perf_data@.len() >= 8 && le_val(perf_data@, 0, 8) != PERF_MAGIC ==> r == Result::<
            (u64, u64),
            ReaderError,
        >::Err(ReaderError::InvalidPerfData),
        perf_data@.len() < 8 ==> r == Result::<(u64, u64), ReaderError>::Err(
            ReaderError::UnexpectedEOF,
        ),
        8 <= perf_data@.len() < 56 && le_val(perf_data@, 0, 8) == PERF_MAGIC ==> r == Result::<
            (u64, u64),
            ReaderError,
        >::Err(ReaderError::UnexpectedEOF),
{
    proof {
        lemma_slice_len_fits(perf_data);
    }
    let magic = match read_u64(perf_data, 0) {
        Some(v) => v,
        None => {
            return Err(ReaderError::UnexpectedEOF);
        },
    };
    if magic != PERF_MAGIC {
        return Err(ReaderError::InvalidPerfData);
    }
    let _size = match read_u64(perf_data, 8) {
        Some(v) => v,
        None => {
            return Err(ReaderError::UnexpectedEOF);
        },
    };
    let _attr_size = match read_u64(perf_data, 16) {
        Some(v) => v,
        None => {
            return Err(ReaderError::UnexpectedEOF);
        },
    };
    let _attrs_section = match read_perf_file_section(perf_data, 24) {
        Some(v) => v,
        None => {
            return Err(ReaderError::UnexpectedEOF);
        },
    };
    let data_section = match read_perf_file_section(perf_data, 40) {
        Some(v) => v,
        None => {
            return Err(ReaderError::UnexpectedEOF);
        },
    };
    Ok(data_section)
}

/// Read one `perf_event_header` at `*pos`, advancing `*pos` past it.
pub fn read_perf_event_header(perf_data: &[u8], pos: &mut usize) -> (r: Option<PerfEventHeader>)
    ensures
        *old(pos) + 8 <= perf_data@.len() <==> r is Some,
        r matches Some(h) ==> *final(pos) == *old(pos) + 8 && h.record_type == le_val(
            perf_data@,
            *old(pos) as int,
            4,
        ) && h.misc == le_val(perf_data@, *old(pos) + 4, 2) && h.size == le_val(
            perf_data@,
            *old(pos) + 6,
            2,
        ),
        r is None ==> *final(pos) == *old(pos),
{
    proof {
        lemma_slice_len_fits(perf_data);
    }
    let record_type = match read_u32(perf_data, *pos) {
        Some(v) => v,
        None => {
            return None;
        },
    };
    let misc = match read_u16(perf_data, *pos + 4) {
        Some(v) => v,
        None => {
            return None;
        },
    };
    let size = match read_u16(perf_data, *pos + 6) {
        Some(v) => v,
        None => {
            return None;
        },
    };
    *pos = *pos + 8;
    Some(PerfEventHeader { record_type, misc, size })
}

/// Read the payload of an AUXTRACE record at `*pos` (just past the event
/// header), advancing `*pos` past the record and its trailing trace data.
pub fn read_auxtrace<'a>(perf_data: &'a [u8], pos: &mut usize) -> (r: Option<
    PerfRecordAuxtrace<'a>,
>)
    ensures
        r matches Some(rec) ==> {
            &&& rec.size == le_val(perf_data@, *old(pos) as int, 8)
            &&& rec.offset == le_val(perf_data@, *old(pos) + 8, 8)
            &&& rec.reference == le_val(perf_data@, *old(pos) + 16, 8)
            &&& rec.idx == le_val(perf_data@, *old(pos) + 24, 4)
            &&& rec.tid == le_val(perf_data@, *old(pos) + 28, 4)
            &&& rec.cpu == le_val(perf_data@, *old(pos) + 32, 4)
            &&& rec.auxtrace_data@ == perf_data@.subrange(
                *old(pos) + 40,
                *old(pos) + 40 + rec.size,
            )
            &&& rec.auxtrace_data@.len() == rec.size
            &&& *final(pos) == *old(pos) + 40 + rec.size
        },
        r is Some <==> *old(pos) + 40 <= perf_data@.len() && le_val(perf_data@, *old(pos) as int, 8)
            != 0 && le_val(perf_data@, *old(pos) as int, 8) <= usize::MAX && *old(pos) + 40
            + le_val(perf_data@, *old(pos) as int, 8) <= perf_data@.len(),
        r is None ==> *final(pos) == *old(pos),
{
    proof {
        lemma_slice_len_fits(perf_data);
    }
    let size = match read_u64(perf_data, *pos) {
        Some(v) => v,
        None => {
            return None;
        },
    };
    let offset = match read_u64(perf_data, *pos + 8) {
        Some(v) => v,
        None => {
            return None;
        },
    };
    let reference = match read_u64(perf_data, *pos + 16) {
        Some(v) => v,
        None => {
            return None;
        },
    };
    let idx = match read_u32(perf_data, *pos + 24) {
        Some(v) => v,
        None => {
            return None;
        },
    };
    let tid = match read_u32(perf_data, *pos + 28) {
        Some(v) => v,
        None => {
            return None;
        },
    };
    let cpu = match read_u32(perf_data, *pos + 32) {
        Some(v) => v,
        None => {
            return None;
        },
    };
    let _reserved = match read_u32(perf_data, *pos + 36) {
        Some(v) => v,
        None => {
            return None;
        },
    };
    if size == 0 {
        return None;
    }
    let data_start = *pos + 40;
    if size > (usize::MAX as u64) {
        return None;
    }
    let size_us = size as usize;
    if size_us > perf_data.len() || data_start > perf_data.len() - size_us {
        return None;
    }
    let auxtrace_data = slice_subrange(perf_data, data_start, data_start + size_us);
    *pos = data_start + size_us;
    proof {
        assert(auxtrace_data@ =~= perf_data@.subrange(
            *old(pos) + 40,
            *old(pos) + 40 + size as int,
        ));
    }
    Some(PerfRecordAuxtrace { size, offset, reference, idx, tid, cpu, auxtrace_data })
}

/// The index of the first NUL byte of `s` in `from..to`, or `to` when no
/// NUL occurs there.
pub open spec fn first_nul(s: Seq<u8>, from: int, to: int) -> int
    decreases to - from,
{
    if from >= to {
        to
    } else if s[from] == 0 {
        from
    } else {
        first_nul(s, from + 1, to)
    }
}

/// Read the payload of an MMAP2 record between `start_pos` (just past the
/// event header) and `end_pos` (the end of the record).
pub fn read_mmap2(perf_data: &[u8], start_pos: usize, end_pos: usize) -> (r: Option<
    PerfMmap2Header,
>)
    ensures
        r is Some <==> start_pos + 64 < end_pos && end_pos <= perf_data@.len() && first_nul(
            perf_data@,
            start_pos + 64,
            end_pos as int,
        ) < end_pos,
        r matches Some(h) ==> {
            &&& h.pid == le_val(perf_data@, start_pos as int, 4)
            &&& h.tid == le_val(perf_data@, start_pos + 4, 4)
            &&& h.addr == le_val(perf_data@, start_pos + 8, 8)
            &&& h.len == le_val(perf_data@, start_pos + 16, 8)
            &&& h.pgoff == le_val(perf_data@, start_pos + 24, 8)
            &&& (forall|k: int| 0 <= k < 24 ==> h.inode[k] == perf_data@[start_pos + 32 + k])
            &&& h.prot == le_val(perf_data@, start_pos + 56, 4)
            &&& h.flags == le_val(perf_data@, start_pos + 60, 4)
            &&& h.filename@ == perf_data@.subrange(
                start_pos + 64,
                first_nul(perf_data@, start_pos + 64, end_pos as int),
            )
            &&& !h.filename@.contains(0u8)
        },
{
    proof {
        lemma_slice_len_fits(perf_data);
    }
    if end_pos > perf_data.len() || start_pos > usize::MAX - 64 || start_pos + 64 >= end_pos {
        return None;
    }
    let pid = match read_u32(perf_data, start_pos) {
        Some(v) => v,
        None => {
            return None;
        },
    };
    let tid = match read_u32(perf_data, start_pos + 4) {
        Some(v) => v,
        None => {
            return None;
        },
    };
    let addr = match read_u64(perf_data, start_pos + 8) {
        Some(v) => v,
        None => {
            return None;
        },
    };
    let len = match read_u64(perf_data, start_pos + 16) {
        Some(v) => v,
        None => {
            return None;
        },
    };
    let pgoff = match read_u64(perf_data, start_pos + 24) {
        Some(v) => v,
        None => {
            return None;
        },
    };
    let mut inode: [u8; 24] = [0; 24];
    let mut i: usize = 0;
    while i < 24
        invariant
            i <= 24,
            start_pos + 64 <= perf_data@.len(),
            perf_data@.len() <= usize::MAX,
            forall|k: int| 0 <= k < i ==> inode[k] == perf_data@[start_pos + 32 + k],
        decreases 24 - i,
    {
        inode[i] = perf_data[start_pos + 32 + i];
        i = i + 1;
    }
    let prot = match read_u32(perf_data, start_pos + 56) {
        Some(v) => v,
        None => {
            return None;
        },
    };
    let flags = match read_u32(perf_data, start_pos + 60) {
        Some(v) => v,
        None => {
            return None;
        },
    };
    let name_start = start_pos + 64;
    // The file name is NUL-terminated inside the record
    let mut filename: Vec<u8> = Vec::new();
    let mut j: usize = name_start;
    while j < end_pos && perf_data[j] != 0
        invariant
            name_start <= j <= end_pos <= perf_data@.len(),
            perf_data@.len() <= usize::MAX,
            filename@ == perf_data@.subrange(name_start as int, j as int),
            !filename@.contains(0u8),
            first_nul(perf_data@, name_start as int, end_pos as int) == first_nul(
                perf_data@,
                j as int,
                end_pos as int,
            ),
        decreases end_pos - j,
    {
        let b = perf_data[j];
        filename.push(b);
        proof {
            assert(filename@ =~= perf_data@.subrange(name_start as int, j + 1));
        }
        j = j + 1;
    }
    if j >= end_pos {
        // The record holds no NUL terminator
        return None;
    }
    Some(PerfMmap2Header { pid, tid, addr, len, pgoff, inode, prot, flags, filename })
}

/// Spec view of an extracted AUXTRACE record.
pub struct AuxView {
    /// Payload size
    pub size: u64,
    /// Offset in the AUX buffer
    pub offset: u64,
    /// Reference value
    pub reference: u64,
    /// AUX area index
    pub idx: u32,
    /// Thread id
    pub tid: u32,
    /// CPU number
    pub cpu: u32,
    /// The raw trace bytes
    pub data: Seq<u8>,
}

/// Spec view of an extracted MMAP2 record.
pub struct MmapView {
    /// Process id
    pub pid: u32,
    /// Thread id
    pub tid: u32,
    /// Start address
    pub addr: u64,
    /// Mapping length
    pub len: u64,
    /// Page offset
    pub pgoff: u64,
    /// Protection flags
    pub prot: u32,
    /// Mapping flags
    pub flags: u32,
    /// File name bytes before the NUL
    pub filename: Seq<u8>,
}

/// The view of an extracted AUXTRACE record.
pub open spec fn aux_view(r: PerfRecordAuxtrace) -> AuxView {
    AuxView {
        size: r.size,
        offset: r.offset,
        reference: r.reference,
        idx: r.idx,
        tid: r.tid,
        cpu: r.cpu,
        data: r.auxtrace_data@,
    }
}

/// The view of an extracted MMAP2 record.
pub open spec fn mmap_view(h: PerfMmap2Header) -> MmapView {
    MmapView {
        pid: h.pid,
        tid: h.tid,
        addr: h.addr,
        len: h.len,
        pgoff: h.pgoff,
        prot: h.prot,
        flags: h.flags,
        filename: h.filename@,
    }
}

/// The AUXTRACE record whose payload starts at `p` (just past the event
/// header).
pub open spec fn spec_aux_at(s: Seq<u8>, p: int) -> AuxView {
    AuxView {
        size: le_val(s, p, 8) as u64,
        offset: le_val(s, p + 8, 8) as u64,
        reference: le_val(s, p + 16, 8) as u64,
        idx: le_val(s, p + 24, 4) as u32,
        tid: le_val(s, p + 28, 4) as u32,
        cpu: le_val(s, p + 32, 4) as u32,
        data: s.subrange(p + 40, p + 40 + le_val(s, p, 8)),
    }
}

/// The MMAP2 record whose payload starts at `p` and ends at `record_end`.
pub open spec fn spec_mmap_at(s: Seq<u8>, p: int, record_end: int) -> MmapView {
    MmapView {
        pid: le_val(s, p, 4) as u32,
        tid: le_val(s, p + 4, 4) as u32,
        addr: le_val(s, p + 8, 8) as u64,
        len: le_val(s, p + 16, 8) as u64,
        pgoff: le_val(s, p + 24, 8) as u64,
        prot: le_val(s, p + 56, 4) as u32,
        flags: le_val(s, p + 60, 4) as u32,
        filename: s.subrange(p + 64, first_nul(s, p + 64, record_end)),
    }
}

/// The views of a sequence of extracted AUXTRACE records.
pub open spec fn aux_views<'a>(v: Seq<PerfRecordAuxtrace<'a>>) -> Seq<AuxView> {
    v.map_values(|r: PerfRecordAuxtrace<'a>| aux_view(r))
}

/// The views of a sequence of extracted MMAP2 records.
pub open spec fn mmap_views(v: Seq<PerfMmap2Header>) -> Seq<MmapView> {
    v.map_values(|h: PerfMmap2Header| mmap_view(h))
}

/// The parse of the records between `pos` and `end`: the AUXTRACE and
/// MMAP2 records in file order, or the first error.
pub open spec fn spec_scan_records(s: Seq<u8>, pos: int, end: int) -> Result<
    (Seq<AuxView>, Seq<MmapView>),
    ReaderError,
>
    decreases end - pos,
{
    if pos >= end {
        Ok((Seq::empty(), Seq::empty()))
    } else if pos + 8 > s.len() {
        Err(ReaderError::UnexpectedEOF)
    } else {
        let ty = le_val(s, pos, 4);
        let size16 = le_val(s, pos + 6, 2);
        if size16 == 0 {
            Err(ReaderError::InvalidPerfData)
        } else if ty == PERF_RECORD_AUXTRACE {
            let p = pos + 8;
            if !(p + 40 <= s.len() && le_val(s, p, 8) != 0 && le_val(s, p, 8) <= usize::MAX && p
                + 40 + le_val(s, p, 8) <= s.len()) {
                Err(ReaderError::UnexpectedEOF)
            } else {
                let next_raw = p + 40 + le_val(s, p, 8);
                let next = if next_raw > end {
                    end as int
                } else {
                    next_raw as int
                };
                match spec_scan_records(s, next, end) {
                    Ok((a, m)) => Ok((seq![spec_aux_at(s, p)] + a, m)),
                    Err(e) => Err(e),
                }
            }
        } else if ty == PERF_RECORD_MMAP2 {
            if size16 > end - pos {
                Err(ReaderError::UnexpectedEOF)
            } else {
                let record_end = pos + size16;
                if !(pos + 8 + 64 < record_end && record_end <= s.len() && first_nul(
                    s,
                    pos + 72,
                    record_end,
                ) < record_end) {
                    Err(ReaderError::InvalidPerfData)
                } else {
                    match spec_scan_records(s, record_end, end) {
                        Ok((a, m)) => Ok((a, seq![spec_mmap_at(s, pos + 8, record_end)] + m)),
                        Err(e) => Err(e),
                    }
                }
            }
        } else {
            let next = if size16 > end - pos {
                end as int
            } else {
                pos + size16
            };
            spec_scan_records(s, next, end)
        }
    }
}

/// The parse of a whole `perf.data` file: its header checks followed by the
/// record scan of the data section.
pub open spec fn spec_extract(s: Seq<u8>) -> Result<(Seq<AuxView>, Seq<MmapView>), ReaderError> {
    if s.len() < 8 {
        Err(ReaderError::UnexpectedEOF)
    } else if le_val(s, 0, 8) != PERF_MAGIC {
        Err(ReaderError::InvalidPerfData)
    } else if s.len() < 56 {
        Err(ReaderError::UnexpectedEOF)
    } else {
        let off = le_val(s, 40, 8);
        let size = le_val(s, 48, 8);
        if off > usize::MAX || size > usize::MAX || off > usize::MAX - size || off + size
            > s.len() {
            Err(ReaderError::UnexpectedEOF)
        } else {
            spec_scan_records(s, off as int, (off + size) as int)
        }
    }
}

/// Extract the AUXTRACE records (the raw Intel PT stream pieces) from a
/// `perf.data` file.
pub fn extract_pt_auxtraces<'a>(perf_data: &'a [u8]) -> (r: Result<
    Vec<PerfRecordAuxtrace<'a>>,
    ReaderError,
>)
    ensures
        r matches Ok(v) ==> forall|i: int|
            0 <= i < v@.len() ==> (#[trigger] v@[i]).auxtrace_data@.len() == v@[i].size,
        (match spec_extract(perf_data@) {
            Ok((a, m)) => r matches Ok(v) && aux_views(v@) == a,
            Err(e) => r == Result::<Vec<PerfRecordAuxtrace<'a>>, ReaderError>::Err(e),
        }),
{
    match extract_pt_auxtraces_and_mmap_data(perf_data) {
        Ok((auxtraces, _mmap2_headers)) => Ok(auxtraces),
        Err(e) => Err(e),
    }
}

/// Extract the AUXTRACE records and the MMAP2 records from a `perf.data`
/// file.
pub fn extract_pt_auxtraces_and_mmap_data<'a>(perf_data: &'a [u8]) -> (r: Result<
    (Vec<PerfRecordAuxtrace<'a>>, Vec<PerfMmap2Header>),
    ReaderError,
>)
    ensures
        r matches Ok(v) ==> forall|i: int|
            0 <= i < v.0@.len() ==> (#[trigger] v.0@[i]).auxtrace_data@.len() == v.0@[i].size,
        (match spec_extract(perf_data@) {
            Ok((a, m)) => r matches Ok(v) && aux_views(v.0@) == a && mmap_views(v.1@) == m,
            Err(e) => r == Result::<
                (Vec<PerfRecordAuxtrace<'a>>, Vec<PerfMmap2Header>),
                ReaderError,
            >::Err(e),
        }),
{
    proof {
        lemma_slice_len_fits(perf_data);
    }
    let mut pt_auxtraces: Vec<PerfRecordAuxtrace<'a>> = Vec::new();
    let mut mmap2_headers: Vec<PerfMmap2Header> = Vec::new();
    let (data_offset, data_size) = match read_perf_header(perf_data) {
        Ok(v) => v,
        Err(e) => {
            return Err(e);
        },
    };
    if data_offset > (usize::MAX as u64) || data_size > (usize::MAX as u64) {
        return Err(ReaderError::UnexpectedEOF);
    }
    let mut pos = data_offset as usize;
    let data_size_us = data_size as usize;
    if pos > usize::MAX - data_size_us {
        return Err(ReaderError::UnexpectedEOF);
    }
    let end_pos = pos + data_size_us;
    if end_pos > perf_data.len() {
        return Err(ReaderError::UnexpectedEOF);
    }
    let ghost start0 = pos as int;
    proof {
        assert(perf_data@.len() >= 56 && le_val(perf_data@, 0, 8) == PERF_MAGIC);
        lemma_le_val_fits(perf_data@, 40, 8);
        lemma_le_val_fits(perf_data@, 48, 8);
        assert(data_offset == le_val(perf_data@, 40, 8) && data_size == le_val(perf_data@, 48, 8));
        assert(aux_views(pt_auxtraces@) =~= Seq::<AuxView>::empty());
        assert(mmap_views(mmap2_headers@) =~= Seq::<MmapView>::empty());
        if let Ok((a, m)) = spec_scan_records(perf_data@, start0, end_pos as int) {
            assert(aux_views(pt_auxtraces@) + a =~= a);
            assert(mmap_views(mmap2_headers@) + m =~= m);
        }
    }
    while pos < end_pos
        invariant
            end_pos <= perf_data@.len(),
            perf_data@.len() <= usize::MAX,
            spec_extract(perf_data@) == spec_scan_records(perf_data@, start0, end_pos as int),
            spec_scan_records(perf_data@, start0, end_pos as int) == (match spec_scan_records(
                perf_data@,
                pos as int,
                end_pos as int,
            ) {
                Ok((a, m)) => Ok::<(Seq<AuxView>, Seq<MmapView>), ReaderError>(
                    (aux_views(pt_auxtraces@) + a, mmap_views(mmap2_headers@) + m),
                ),
                Err(e) => Err(e),
            }),
            forall|i: int|
                0 <= i < pt_auxtraces@.len() ==> (#[trigger] pt_auxtraces@[i]).auxtrace_data@.len()
                    == pt_auxtraces@[i].size,
        decreases end_pos - pos,
    {
        let ghost pos_old = pos as int;
        let ghost pt_old = pt_auxtraces@;
        let ghost mm_old = mmap2_headers@;
        let perf_header_start_pos = pos;
        let perf_event_header = match read_perf_event_header(perf_data, &mut pos) {
            Some(h) => h,
            None => {
                return Err(ReaderError::UnexpectedEOF);
            },
        };
        if perf_event_header.size == 0 {
            // A zero-size record would loop forever
            return Err(ReaderError::InvalidPerfData);
        }
        if perf_event_header.record_type == PERF_RECORD_AUXTRACE {
            let ghost p = pos as int;
            let auxtrace = match read_auxtrace(perf_data, &mut pos) {
                Some(a) => a,
                None => {
                    return Err(ReaderError::UnexpectedEOF);
                },
            };
            pt_auxtraces.push(auxtrace);
            if pos <= perf_header_start_pos {
                return Err(ReaderError::Unexpected);
            }
            if pos > end_pos {
                // The trace data runs to the end of the data section
                pos = end_pos;
            }
            proof {
                assert(aux_view(auxtrace) == spec_aux_at(perf_data@, p));
                assert(aux_views(pt_auxtraces@) =~= aux_views(pt_old).push(aux_view(auxtrace)));
                assert(mmap_views(mmap2_headers@) =~= mmap_views(mm_old));
                if let Ok((a, m)) = spec_scan_records(perf_data@, pos as int, end_pos as int) {
                    assert(aux_views(pt_old) + (seq![spec_aux_at(perf_data@, p)] + a)
                        =~= aux_views(pt_auxtraces@) + a);
                }
            }
        } else if perf_event_header.record_type == PERF_RECORD_MMAP2 {
            if (perf_event_header.size as usize) > end_pos - perf_header_start_pos {
                return Err(ReaderError::UnexpectedEOF);
            }
            let record_end = perf_header_start_pos + (perf_event_header.size as usize);
            let mmap2_header = match read_mmap2(perf_data, pos, record_end) {
                Some(h) => h,
                None => {
                    return Err(ReaderError::InvalidPerfData);
                },
            };
            proof {
                assert(mmap_view(mmap2_header) == spec_mmap_at(
                    perf_data@,
                    pos_old + 8,
                    record_end as int,
                ));
            }
            mmap2_headers.push(mmap2_header);
            pos = record_end;
            proof {
                assert(mmap_views(mmap2_headers@) =~= mmap_views(mm_old).push(
                    spec_mmap_at(perf_data@, pos_old + 8, record_end as int),
                ));
                assert(aux_views(pt_auxtraces@) =~= aux_views(pt_old));
                if let Ok((a, m)) = spec_scan_records(perf_data@, pos as int, end_pos as int) {
                    assert(mmap_views(mm_old) + (seq![
                        spec_mmap_at(perf_data@, pos_old + 8, record_end as int),
                    ] + m) =~= mmap_views(mmap2_headers@) + m);
                }
            }
        } else {
            if (perf_event_header.size as usize) > end_pos - perf_header_start_pos {
                // The record runs past the data section: stop at its end
                pos = end_pos;
            } else {
                pos = perf_header_start_pos + (perf_event_header.size as usize);
            }
        }
    }
    proof {
        assert(spec_scan_records(perf_data@, pos as int, end_pos as int) == Ok::<
            (Seq<AuxView>, Seq<MmapView>),
            ReaderError,
        >((Seq::empty(), Seq::empty())));
        assert(aux_views(pt_auxtraces@) + Seq::<AuxView>::empty() =~= aux_views(pt_auxtraces@));
        assert(mmap_views(mmap2_headers@) + Seq::<MmapView>::empty() =~= mmap_views(
            mmap2_headers@,
        ));
    }
    Ok((pt_auxtraces, mmap2_headers))
}

} // verus!
