//! Tests for the perf.data reader and the address-range filter.

use iptr::addr_range::{extract_range, RangeError};
use iptr::perf_reader::{extract_pt_auxtraces, extract_pt_auxtraces_and_mmap_data, ReaderError};

/// A minimal PERFILE2 file holding the given records as its data section.
fn perf_file(records: &[u8]) -> Vec<u8> {
    let mut v = Vec::new();
    v.extend_from_slice(b"PERFILE2");
    v.extend_from_slice(&0u64.to_le_bytes()); // size
    v.extend_from_slice(&0u64.to_le_bytes()); // attr_size
    v.extend_from_slice(&0u64.to_le_bytes()); // attrs offset
    v.extend_from_slice(&0u64.to_le_bytes()); // attrs size
    v.extend_from_slice(&56u64.to_le_bytes()); // data offset
    v.extend_from_slice(&(records.len() as u64).to_le_bytes()); // data size
    v.extend_from_slice(records);
    v
}

fn auxtrace_record(data: &[u8]) -> Vec<u8> {
    let mut v = Vec::new();
    v.extend_from_slice(&71u32.to_le_bytes()); // type
    v.extend_from_slice(&0u16.to_le_bytes()); // misc
    v.extend_from_slice(&48u16.to_le_bytes()); // size
    v.extend_from_slice(&(data.len() as u64).to_le_bytes()); // size
    v.extend_from_slice(&0u64.to_le_bytes()); // offset
    v.extend_from_slice(&7u64.to_le_bytes()); // reference
    v.extend_from_slice(&1u32.to_le_bytes()); // idx
    v.extend_from_slice(&2u32.to_le_bytes()); // tid
    v.extend_from_slice(&3u32.to_le_bytes()); // cpu
    v.extend_from_slice(&0u32.to_le_bytes()); // reserved
    v.extend_from_slice(data);
    v
}

fn mmap2_record(addr: u64, len: u64, pgoff: u64, filename: &[u8]) -> Vec<u8> {
    let mut payload = Vec::new();
    payload.extend_from_slice(&10u32.to_le_bytes()); // pid
    payload.extend_from_slice(&11u32.to_le_bytes()); // tid
    payload.extend_from_slice(&addr.to_le_bytes());
    payload.extend_from_slice(&len.to_le_bytes());
    payload.extend_from_slice(&pgoff.to_le_bytes());
    payload.extend_from_slice(&[0u8; 24]); // inode
    payload.extend_from_slice(&5u32.to_le_bytes()); // prot
    payload.extend_from_slice(&6u32.to_le_bytes()); // flags
    payload.extend_from_slice(filename);
    payload.push(0);
    let mut v = Vec::new();
    v.extend_from_slice(&10u32.to_le_bytes()); // type
    v.extend_from_slice(&0u16.to_le_bytes()); // misc
    v.extend_from_slice(&((8 + payload.len()) as u16).to_le_bytes()); // size
    v.extend_from_slice(&payload);
    v
}

#[test]
fn extracts_one_auxtrace_record() {
    let records = auxtrace_record(&[0xAA, 0xBB, 0xCC]);
    let file = perf_file(&records);
    let auxtraces = extract_pt_auxtraces(&file).unwrap();
    assert_eq!(auxtraces.len(), 1);
    assert_eq!(auxtraces[0].size, 3);
    assert_eq!(auxtraces[0].reference, 7);
    assert_eq!(auxtraces[0].idx, 1);
    assert_eq!(auxtraces[0].tid, 2);
    assert_eq!(auxtraces[0].cpu, 3);
    assert_eq!(auxtraces[0].auxtrace_data, &[0xAA, 0xBB, 0xCC]);
}

#[test]
fn extracts_auxtrace_and_mmap2_records() {
    let mut records = auxtrace_record(&[0x01, 0x02]);
    records.extend_from_slice(&mmap2_record(0x1000, 0x2000, 0, b"/bin/probe"));
    let file = perf_file(&records);
    let (auxtraces, mmap2_headers) = extract_pt_auxtraces_and_mmap_data(&file).unwrap();
    assert_eq!(auxtraces.len(), 1);
    assert_eq!(auxtraces[0].auxtrace_data, &[0x01, 0x02]);
    assert_eq!(mmap2_headers.len(), 1);
    assert_eq!(mmap2_headers[0].pid, 10);
    assert_eq!(mmap2_headers[0].addr, 0x1000);
    assert_eq!(mmap2_headers[0].len, 0x2000);
    assert_eq!(mmap2_headers[0].filename, b"/bin/probe".to_vec());
}

#[test]
fn rejects_wrong_magic() {
    let mut file = perf_file(&[]);
    file[0] = b'X';
    assert_eq!(
        extract_pt_auxtraces(&file).err(),
        Some(ReaderError::InvalidPerfData)
    );
}

#[test]
fn rejects_truncated_header() {
    let file = vec![0x50, 0x45];
    assert_eq!(
        extract_pt_auxtraces(&file).err(),
        Some(ReaderError::UnexpectedEOF)
    );
}

#[test]
fn rejects_zero_size_record() {
    let mut records = Vec::new();
    records.extend_from_slice(&99u32.to_le_bytes());
    records.extend_from_slice(&0u16.to_le_bytes());
    records.extend_from_slice(&0u16.to_le_bytes()); // zero record size
    let file = perf_file(&records);
    assert_eq!(
        extract_pt_auxtraces(&file).err(),
        Some(ReaderError::InvalidPerfData)
    );
}

#[test]
fn extract_range_parses_hex_pair() {
    let r = extract_range(Some("0x400000"), Some("0x401000")).unwrap();
    assert_eq!(r, Some([(0x400000, 0x401000)]));
    let r = extract_range(Some("DEADbeef"), Some("10")).unwrap();
    assert_eq!(r, Some([(0xDEAD_BEEF, 0x10)]));
}

#[test]
fn extract_range_requires_both_bounds() {
    assert_eq!(extract_range(None, None), Ok(None));
    assert_eq!(extract_range(Some("10"), None), Err(RangeError::HalfRange));
    assert_eq!(extract_range(None, Some("10")), Err(RangeError::HalfRange));
}

#[test]
fn extract_range_rejects_bad_hex() {
    assert_eq!(
        extract_range(Some("zz"), Some("10")),
        Err(RangeError::InvalidStart)
    );
    assert_eq!(
        extract_range(Some("10"), Some("")),
        Err(RangeError::InvalidEnd)
    );
    assert_eq!(
        extract_range(Some("11112222333344445"), Some("10")),
        Err(RangeError::InvalidStart)
    );
}
