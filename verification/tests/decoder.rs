use tar_stream::config::DecodeConfig;
use tar_stream::error::DecodeError;
use tar_stream::stream::{EntryDecoder, LogicalEntry, StreamStep};
use tar_stream::sparse::Segment;

fn write_octal(block: &mut [u8], at: usize, width: usize, value: u64) {
    // zero-padded octal digits followed by a NUL terminator
    let mut digits = Vec::new();
    let mut v = value;
    loop {
        digits.push(0x30 + (v % 8) as u8);
        v /= 8;
        if v == 0 {
            break;
        }
    }
    while digits.len() < width - 1 {
        digits.push(0x30);
    }
    digits.reverse();
    for (i, d) in digits.iter().enumerate() {
        block[at + i] = *d;
    }
    block[at + width - 1] = 0x00;
}

fn finish_checksum(block: &mut [u8]) {
    for i in 148..156 {
        block[i] = 0x20;
    }
    let mut sum: u32 = 0;
    for i in 0..512 {
        sum += block[i] as u32;
    }
    write_octal(block, 148, 8, sum as u64);
}

fn make_header(name: &str, size: u64, typeflag: u8, gnu: bool) -> Vec<u8> {
    let mut block = vec![0u8; 512];
    for (i, b) in name.as_bytes().iter().enumerate() {
        block[i] = *b;
    }
    write_octal(&mut block, 100, 8, 0o644); // mode
    write_octal(&mut block, 108, 8, 0); // uid
    write_octal(&mut block, 116, 8, 0); // gid
    write_octal(&mut block, 124, 12, size);
    write_octal(&mut block, 136, 12, 0); // mtime
    block[156] = typeflag;
    if gnu {
        block[257..265].copy_from_slice(b"ustar  \0");
    } else {
        block[257..265].copy_from_slice(b"ustar\x0000");
    }
    finish_checksum(&mut block);
    block
}

fn pad_to_block(data: &mut Vec<u8>) {
    while data.len() % 512 != 0 {
        data.push(0);
    }
}

/// Drive a decoder over `bytes`, reading at most `chunk_cap` bytes per
/// feeding, collecting the yielded entries.
fn decode_all(
    bytes: &[u8],
    cfg: DecodeConfig,
    chunk_cap: usize,
) -> Result<Vec<LogicalEntry>, DecodeError> {
    let mut dec = EntryDecoder::new(cfg, 0).unwrap();
    let mut pos: usize = 0;
    let mut entries = Vec::new();
    let mut pending: Option<u64> = None;
    loop {
        let step = match pending.take() {
            None => dec.step(&[])?,
            Some(max) => {
                let want = (max as usize).min(chunk_cap).min(bytes.len() - pos);
                if want == 0 && max > 0 {
                    dec.step_eof()?
                } else {
                    let chunk = &bytes[pos..pos + want];
                    pos += want;
                    dec.step(chunk)?
                }
            }
        };
        match step {
            StreamStep::NeedBytes { max } => {
                pending = Some(max);
            }
            StreamStep::Entry { entry } => {
                entries.push(entry);
            }
            StreamStep::End => {
                return Ok(entries);
            }
        }
    }
}

fn default_cfg() -> DecodeConfig {
    DecodeConfig::new()
}

#[test]
fn single_entry_archive() {
    let mut ar = make_header("hello.txt", 5, 0x30, true);
    ar.extend_from_slice(b"hello");
    pad_to_block(&mut ar);
    ar.extend_from_slice(&[0u8; 1024]);
    let entries = decode_all(&ar, default_cfg(), 512).unwrap();
    assert_eq!(entries.len(), 1);
    assert_eq!(entries[0].size, 5);
    assert_eq!(entries[0].header_pos, 0);
    assert_eq!(entries[0].file_pos, 512);
    assert_eq!(entries[0].segments, vec![Segment::Data { len: 5 }]);
    assert!(entries[0].long_pathname.is_none());
}

#[test]
fn entry_content_lengths_sum_to_size() {
    // Every yielded entry's segment lengths sum to its resolved size.
    let mut ar = make_header("a", 700, 0x30, true);
    ar.extend_from_slice(&vec![7u8; 700]);
    pad_to_block(&mut ar);
    ar.extend_from_slice(&make_header("b", 0, 0x35, true));
    ar.extend_from_slice(&[0u8; 1024]);
    let entries = decode_all(&ar, default_cfg(), 100).unwrap();
    assert_eq!(entries.len(), 2);
    for e in &entries {
        let total: u64 = e
            .segments
            .iter()
            .map(|s| match s {
                Segment::Data { len } => *len,
                Segment::Zero { len } => *len,
            })
            .sum();
        assert_eq!(total, e.size);
    }
}

#[test]
fn resumable_one_byte_chunks() {
    // Feeding one byte at a time resolves the same entries.
    let mut ar = make_header("tiny", 3, 0x30, true);
    ar.extend_from_slice(b"abc");
    pad_to_block(&mut ar);
    ar.extend_from_slice(&[0u8; 1024]);
    let entries = decode_all(&ar, default_cfg(), 1).unwrap();
    assert_eq!(entries.len(), 1);
    assert_eq!(entries[0].size, 3);
    assert_eq!(entries[0].file_pos, 512);
}

#[test]
fn checksum_flip_detected() {
    // Flipping a non-checksum byte of a valid header fails the next pull.
    let mut ar = make_header("x", 0, 0x30, true);
    ar.extend_from_slice(&[0u8; 1024]);
    ar[0] ^= 0xFF;
    let err = decode_all(&ar, default_cfg(), 512).unwrap_err();
    assert_eq!(err, DecodeError::ChecksumMismatch);
}

#[test]
fn end_of_archive_is_idempotent() {
    let ar = vec![0u8; 1024];
    let mut dec = EntryDecoder::new(default_cfg(), 0).unwrap();
    let mut fed = 0usize;
    loop {
        let step = dec.step(&[]).unwrap();
        match step {
            StreamStep::NeedBytes { max } => {
                let want = (max as usize).min(ar.len() - fed);
                let chunk = &ar[fed..fed + want];
                fed += want;
                match dec.step(chunk).unwrap() {
                    StreamStep::End => break,
                    _ => {}
                }
            }
            StreamStep::End => break,
            StreamStep::Entry { .. } => panic!("no entries expected"),
        }
    }
    // Every further pull answers End again, never an error.
    for _ in 0..3 {
        match dec.step(&[]).unwrap() {
            StreamStep::End => {}
            _ => panic!("expected End"),
        }
        match dec.step_eof().unwrap() {
            StreamStep::End => {}
            _ => panic!("expected End"),
        }
    }
}

#[test]
fn longname_merges_into_next_entry() {
    // A long-name record merges into the next entry and is not yielded.
    let long = b"some/very/long/path/name.txt";
    let mut ar = make_header("././@LongLink", long.len() as u64, 0x4C, true);
    ar.extend_from_slice(long);
    pad_to_block(&mut ar);
    ar.extend_from_slice(&make_header("short", 4, 0x30, true));
    ar.extend_from_slice(b"data");
    pad_to_block(&mut ar);
    ar.extend_from_slice(&[0u8; 1024]);
    let entries = decode_all(&ar, default_cfg(), 512).unwrap();
    assert_eq!(entries.len(), 1);
    assert_eq!(entries[0].long_pathname.as_deref(), Some(&long[..]));
    assert_eq!(entries[0].size, 4);
}

#[test]
fn duplicate_longname_rejected() {
    let long = b"dup";
    let mut ar = make_header("././@LongLink", 3, 0x4C, true);
    ar.extend_from_slice(long);
    pad_to_block(&mut ar);
    let mut second = make_header("././@LongLink", 3, 0x4C, true);
    ar.append(&mut second);
    ar.extend_from_slice(long);
    pad_to_block(&mut ar);
    ar.extend_from_slice(&[0u8; 1024]);
    let err = decode_all(&ar, default_cfg(), 512).unwrap_err();
    assert_eq!(err, DecodeError::DuplicateContinuation);
}

#[test]
fn longlink_and_pax_merge_into_next_entry() {
    let link = b"target/of/link";
    let pax = b"27 path=some/other/name\n";
    let mut ar = make_header("././@LongLink", link.len() as u64, 0x4B, true);
    ar.extend_from_slice(link);
    pad_to_block(&mut ar);
    ar.extend_from_slice(&make_header("pax", pax.len() as u64, 0x78, true));
    ar.extend_from_slice(pax);
    pad_to_block(&mut ar);
    ar.extend_from_slice(&make_header("entry", 0, 0x30, true));
    ar.extend_from_slice(&[0u8; 1024]);
    let entries = decode_all(&ar, default_cfg(), 512).unwrap();
    assert_eq!(entries.len(), 1);
    assert_eq!(entries[0].long_linkname.as_deref(), Some(&link[..]));
    assert_eq!(entries[0].pax_extensions.as_deref(), Some(&pax[..]));
    assert!(entries[0].long_pathname.is_none());
}

#[test]
fn unrecognized_header_is_not_a_continuation() {
    // A classic (magic-less) header with a long-name tag is an ordinary
    // entry, not a continuation record.
    let mut block = vec![0u8; 512];
    block[0] = b'c';
    block[124..136].copy_from_slice(b"00000000000\0");
    block[156] = 0x4C;
    finish_checksum(&mut block);
    let mut ar = block;
    ar.extend_from_slice(&[0u8; 1024]);
    let entries = decode_all(&ar, default_cfg(), 512).unwrap();
    assert_eq!(entries.len(), 1);
    assert!(entries[0].long_pathname.is_none());
}

fn make_sparse_header(real_size: u64, phys_size: u64, frags: &[(u64, u64)]) -> Vec<u8> {
    let mut block = make_header("sparse.bin", phys_size, 0x53, true);
    for (i, (off, len)) in frags.iter().enumerate() {
        let base = 386 + 24 * i;
        write_octal(&mut block, base, 12, *off);
        write_octal(&mut block, base + 12, 12, *len);
    }
    write_octal(&mut block, 483, 12, real_size);
    finish_checksum(&mut block);
    block
}

#[test]
fn sparse_hole_then_data() {
    // Real size 1024, physical size 512, one fragment at offset 512: the
    // logical content is 512 zero bytes, then 512 bytes from the stream.
    let mut ar = make_sparse_header(1024, 512, &[(512, 512)]);
    ar.extend_from_slice(&vec![9u8; 512]);
    ar.extend_from_slice(&[0u8; 1024]);
    let entries = decode_all(&ar, default_cfg(), 512).unwrap();
    assert_eq!(entries.len(), 1);
    assert_eq!(entries[0].size, 1024);
    assert_eq!(
        entries[0].segments,
        vec![Segment::Zero { len: 512 }, Segment::Data { len: 512 }]
    );
}

#[test]
fn sparse_size_mismatch_rejected() {
    // One fragment at offset 600 reaches 1112, not the declared 1024.
    let mut ar = make_sparse_header(1024, 512, &[(600, 512)]);
    ar.extend_from_slice(&vec![9u8; 512]);
    ar.extend_from_slice(&[0u8; 1024]);
    let err = decode_all(&ar, default_cfg(), 512).unwrap_err();
    assert_eq!(err, DecodeError::SparseSizeMismatch);
}

#[test]
fn sparse_misaligned_fragment_rejected() {
    // After 100 consumed bytes the next fragment does not start on a
    // 512-byte boundary of consumed data.
    let mut ar = make_sparse_header(1024, 512, &[(0, 100), (612, 412)]);
    ar.extend_from_slice(&vec![9u8; 512]);
    ar.extend_from_slice(&[0u8; 1024]);
    let err = decode_all(&ar, default_cfg(), 512).unwrap_err();
    assert_eq!(err, DecodeError::MisalignedFragment);
}

#[test]
fn sparse_out_of_order_rejected() {
    let mut ar = make_sparse_header(2048, 1024, &[(512, 512), (0, 512)]);
    ar.extend_from_slice(&vec![9u8; 1024]);
    ar.extend_from_slice(&[0u8; 1024]);
    let err = decode_all(&ar, default_cfg(), 512).unwrap_err();
    assert_eq!(err, DecodeError::OutOfOrderFragment);
}

#[test]
fn sparse_overrun_rejected() {
    // The fragment consumes more than the declared physical size.
    let mut ar = make_sparse_header(1024, 512, &[(0, 1024)]);
    ar.extend_from_slice(&vec![9u8; 512]);
    ar.extend_from_slice(&[0u8; 1024]);
    let err = decode_all(&ar, default_cfg(), 512).unwrap_err();
    assert_eq!(err, DecodeError::OverrunFragment);
}

#[test]
fn sparse_extended_blocks_chain() {
    // The header's extended flag chains one extra sparse header block whose
    // fragments continue the list.
    let mut header = make_sparse_header(2048, 1024, &[(0, 512)]);
    header[482] = 1;
    finish_checksum(&mut header);
    let mut ar = header;
    let mut ext = vec![0u8; 512];
    write_octal(&mut ext, 0, 12, 1536);
    write_octal(&mut ext, 12, 12, 512);
    ext[504] = 0;
    ar.extend_from_slice(&ext);
    ar.extend_from_slice(&vec![9u8; 1024]);
    ar.extend_from_slice(&[0u8; 1024]);
    let entries = decode_all(&ar, default_cfg(), 512).unwrap();
    assert_eq!(entries.len(), 1);
    assert_eq!(entries[0].size, 2048);
    assert_eq!(
        entries[0].segments,
        vec![
            Segment::Data { len: 512 },
            Segment::Zero { len: 1024 },
            Segment::Data { len: 512 }
        ]
    );
}

#[test]
fn ignore_zeros_decodes_concatenated_archives() {
    // [entry][512 zero bytes][entry]: one entry without ignore_zeros, both
    // entries with it.
    let mut ar = make_header("a", 2, 0x30, true);
    ar.extend_from_slice(b"aa");
    pad_to_block(&mut ar);
    ar.extend_from_slice(&[0u8; 512]);
    ar.extend_from_slice(&make_header("b", 2, 0x30, true));
    ar.extend_from_slice(b"bb");
    pad_to_block(&mut ar);
    ar.extend_from_slice(&[0u8; 1024]);

    let plain = decode_all(&ar, default_cfg(), 512).unwrap();
    assert_eq!(plain.len(), 1);

    let cfg = DecodeConfig::new().set_ignore_zeros(true);
    let both = decode_all(&ar, cfg, 512).unwrap();
    assert_eq!(both.len(), 2);
    assert_eq!(both[1].size, 2);
}

#[test]
fn truncated_header_rejected() {
    let ar = make_header("x", 0, 0x30, true);
    let cut = &ar[..300];
    let err = decode_all(cut, default_cfg(), 512).unwrap_err();
    assert_eq!(err, DecodeError::TruncatedHeader);
}

#[test]
fn unexpected_end_during_skip_rejected() {
    // An entry declares content that the stream does not hold.
    let mut ar = make_header("x", 100, 0x30, true);
    ar.extend_from_slice(&[5u8; 10]);
    let err = decode_all(&ar, default_cfg(), 512).unwrap_err();
    assert_eq!(err, DecodeError::UnexpectedEnd);
}

#[test]
fn not_at_start_rejected() {
    let err = EntryDecoder::new(default_cfg(), 7).unwrap_err();
    assert_eq!(err, DecodeError::NotAtStart);
    assert!(EntryDecoder::new(default_cfg(), 0).is_ok());
}

#[test]
fn invalid_size_field_rejected() {
    // A non-octal size field in an otherwise checksum-valid header.
    let mut block = make_header("x", 0, 0x30, true);
    block[124] = b'Z';
    finish_checksum(&mut block);
    let mut ar = block;
    ar.extend_from_slice(&[0u8; 1024]);
    let err = decode_all(&ar, default_cfg(), 512).unwrap_err();
    assert_eq!(err, DecodeError::InvalidNumericField);
}

#[test]
fn directory_entry_flag() {
    let mut ar = make_header("dir/", 0, 0x35, true);
    ar.extend_from_slice(&make_header("dir/file", 1, 0x30, true));
    ar.extend_from_slice(b"z");
    pad_to_block(&mut ar);
    ar.extend_from_slice(&[0u8; 1024]);
    let entries = decode_all(&ar, default_cfg(), 512).unwrap();
    assert_eq!(entries.len(), 2);
    assert!(entries[0].is_dir());
    assert!(!entries[1].is_dir());
}

#[test]
fn content_reads_advance_position() {
    // A consumer that reads an entry's content reports it with note_read;
    // the decoder then skips only the record padding, not the content.
    let mut ar = make_header("f", 5, 0x30, true);
    ar.extend_from_slice(b"hello");
    pad_to_block(&mut ar);
    ar.extend_from_slice(&[0u8; 1024]);

    let mut dec = EntryDecoder::new(default_cfg(), 0).unwrap();
    match dec.step(&[]).unwrap() {
        StreamStep::NeedBytes { max } => assert_eq!(max, 512),
        _ => panic!("expected a request for bytes"),
    }
    match dec.step(&ar[..512]).unwrap() {
        StreamStep::Entry { entry } => assert_eq!(entry.size, 5),
        _ => panic!("expected the entry"),
    }
    // The consumer reads the 5 content bytes itself.
    dec.note_read(5);
    match dec.step(&[]).unwrap() {
        StreamStep::NeedBytes { max } => assert_eq!(max, 507),
        _ => panic!("expected a request for the padding"),
    }
}

#[test]
fn config_flags_carried_to_entries() {
    let cfg = DecodeConfig::new()
        .set_unpack_xattrs(true)
        .set_preserve_permissions(true)
        .set_preserve_mtime(false);
    let mut ar = make_header("f", 0, 0x30, true);
    ar.extend_from_slice(&[0u8; 1024]);
    let entries = decode_all(&ar, cfg, 512).unwrap();
    assert!(entries[0].unpack_xattrs);
    assert!(entries[0].preserve_permissions);
    assert!(!entries[0].preserve_mtime);
}
