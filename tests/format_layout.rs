use mediapack::layout::{compact, layout_offsets, MediaData};
use mediapack::{Header, ReadError, HEADER_SIZE, MAGIC, VERSION};

#[test]
fn header_bytes_are_laid_out_little_endian() {
    let h = Header { index_length: 0x0102, metadata_length: 7, total_files: 3 };
    let b = h.write_to();
    assert_eq!(b.len(), HEADER_SIZE);
    assert_eq!(&b[0..5], b"MPACK");
    assert_eq!(&b[0..5], &MAGIC[..]);
    assert_eq!(b[5], VERSION);
    assert_eq!(&b[6..8], &[0, 0]);
    assert_eq!(&b[8..16], &[0x02, 0x01, 0, 0, 0, 0, 0, 0]);
    assert_eq!(&b[16..24], &[7, 0, 0, 0, 0, 0, 0, 0]);
    assert_eq!(&b[24..28], &[3, 0, 0, 0]);
    assert_eq!(&b[28..32], &[0, 0, 0, 0]);
}

#[test]
fn header_round_trip() {
    for h in [
        Header { index_length: 0, metadata_length: 0, total_files: 0 },
        Header { index_length: 123456, metadata_length: 789, total_files: 42 },
        Header { index_length: u64::MAX, metadata_length: u64::MAX - 1, total_files: u32::MAX },
    ] {
        assert_eq!(Header::read_from(&h.write_to()), Ok(h));
    }
}

#[test]
fn header_errors() {
    let good = Header { index_length: 1, metadata_length: 2, total_files: 3 }.write_to();
    let mut bad_magic = good.clone();
    bad_magic[0] = b'X';
    assert_eq!(Header::read_from(&bad_magic), Err(ReadError::InvalidMagic));
    let mut bad_version = good.clone();
    bad_version[5] = 2;
    assert_eq!(Header::read_from(&bad_version), Err(ReadError::UnsupportedVersion));
    assert_eq!(Header::read_from(&good[..4]), Err(ReadError::Truncated));
    assert_eq!(Header::read_from(&good[..20]), Err(ReadError::Truncated));
    assert_eq!(Header::read_from(b"NOPE!xxxx"), Err(ReadError::InvalidMagic));
    assert!(Header::read_from(&good[..28]).is_ok());
}

#[test]
fn index_offset_sums_trailer() {
    let h = Header { index_length: 100, metadata_length: 20, total_files: 1 };
    assert_eq!(h.index_offset(), Some(120));
    let h = Header { index_length: u64::MAX, metadata_length: 1, total_files: 1 };
    assert_eq!(h.index_offset(), None);
}

#[test]
fn offsets_partition_data_region() {
    let lengths = vec![10u64, 20, 5];
    let offsets = layout_offsets(HEADER_SIZE as u64, &lengths).unwrap();
    assert_eq!(offsets, vec![32, 42, 62]);
    for i in 0..offsets.len() - 1 {
        assert_eq!(offsets[i] + lengths[i], offsets[i + 1]);
    }
    let data_end = offsets[2] + lengths[2];
    assert_eq!(data_end, 67);
    let h = Header { index_length: 50, metadata_length: 9, total_files: 3 };
    let layout = h.locate(data_end + 9 + 50).unwrap();
    assert_eq!(layout.metadata_offset, data_end);
    assert_eq!(layout.index_offset, data_end + 9);
    assert_eq!(layout.metadata_length, 9);
    assert_eq!(layout.index_length, 50);
}

#[test]
fn offsets_overflow_is_refused() {
    assert_eq!(layout_offsets(u64::MAX - 3, &vec![2, 2]), None);
    assert_eq!(layout_offsets(7, &vec![]), Some(vec![]));
}

#[test]
fn locate_rejects_short_files() {
    let h = Header { index_length: 50, metadata_length: 9, total_files: 0 };
    assert_eq!(h.locate(90), Err(ReadError::Truncated));
    assert_eq!(h.locate(10), Err(ReadError::Truncated));
    assert!(h.locate(91).is_ok());
    let huge = Header { index_length: u64::MAX, metadata_length: u64::MAX, total_files: 0 };
    assert_eq!(huge.locate(u64::MAX), Err(ReadError::Truncated));
}

#[test]
fn compaction_closes_gaps_and_keeps_order() {
    // rows left after deleting some entries: gaps at 32..40 and 50..70
    let rows = vec![
        MediaData { id: 4, offset: 40, length: 10 },
        MediaData { id: 9, offset: 70, length: 5 },
        MediaData { id: 2, offset: 75, length: 1 },
    ];
    let out = compact(&rows, HEADER_SIZE as u64).unwrap();
    assert_eq!(
        out,
        vec![
            MediaData { id: 4, offset: 32, length: 10 },
            MediaData { id: 9, offset: 42, length: 5 },
            MediaData { id: 2, offset: 47, length: 1 },
        ]
    );
    for i in 0..out.len() - 1 {
        assert_eq!(out[i].offset + out[i].length, out[i + 1].offset);
        assert!(out[i].offset < out[i + 1].offset);
    }
}

#[test]
fn compaction_of_packed_rows_changes_nothing() {
    let rows = vec![
        MediaData { id: 1, offset: 32, length: 3 },
        MediaData { id: 2, offset: 35, length: 4 },
    ];
    assert_eq!(compact(&rows, 32).unwrap(), rows);
    assert_eq!(compact(&vec![MediaData { id: 1, offset: 0, length: 2 }], u64::MAX - 1), None);
}

#[test]
fn rows_sort_by_offset() {
    let rows = vec![
        MediaData { id: 1, offset: 70, length: 5 },
        MediaData { id: 2, offset: 32, length: 8 },
        MediaData { id: 3, offset: 50, length: 1 },
    ];
    let sorted = mediapack::layout::sort_by_offset(&rows);
    assert_eq!(sorted.iter().map(|r| r.id).collect::<Vec<_>>(), vec![2, 3, 1]);
    let out = compact(&sorted, HEADER_SIZE as u64).unwrap();
    assert_eq!(out.iter().map(|r| r.offset).collect::<Vec<_>>(), vec![32, 40, 41]);
    for (old, new) in sorted.iter().zip(&out) {
        assert!(new.offset <= old.offset);
    }
}

#[test]
fn data_end_is_furthest_end() {
    let rows = vec![
        MediaData { id: 1, offset: 70, length: 5 },
        MediaData { id: 2, offset: 32, length: 80 },
    ];
    assert_eq!(mediapack::layout::data_end(&rows, 32), Some(112));
    assert_eq!(mediapack::layout::data_end(&vec![], 32), Some(32));
    assert_eq!(mediapack::layout::data_end(&vec![MediaData { id: 1, offset: u64::MAX, length: 1 }], 32), None);
}

#[test]
fn trailer_follows_data_region() {
    let (h, len) = Header::trailer_at(100, 9, 50, 3).unwrap();
    assert_eq!(h, Header { index_length: 50, metadata_length: 9, total_files: 3 });
    assert_eq!(len, 159);
    assert_eq!(h.locate(len).unwrap().metadata_offset, 100);
    assert_eq!(Header::trailer_at(10, 0, 0, 0), None);
    assert_eq!(Header::trailer_at(u64::MAX - 5, 9, 0, 0), None);
}

#[test]
fn equal_offsets_keep_their_order() {
    let rows = vec![
        MediaData { id: 1, offset: 50, length: 0 },
        MediaData { id: 2, offset: 40, length: 10 },
        MediaData { id: 3, offset: 50, length: 4 },
    ];
    let sorted = mediapack::layout::sort_by_offset(&rows);
    assert_eq!(sorted.iter().map(|r| r.id).collect::<Vec<_>>(), vec![2, 1, 3]);
}
