use tar_stream::config::DecodeConfig;
use tar_stream::error::DecodeError;
use tar_stream::extract::extraction_order;
use tar_stream::fill::BlockFill;
use tar_stream::header::{block_all_zero, compute_checksum, Header};
use tar_stream::octal::parse_octal;
use tar_stream::raw::{RawDecoder, RawStep};
use tar_stream::sparse::{Segment, SparseBuilder};

#[test]
fn octal_parse_exact_values() {
    assert_eq!(parse_octal(b"755\0"), Ok(0o755));
    assert_eq!(parse_octal(b"00000000012\0"), Ok(10));
    assert_eq!(parse_octal(b"  17 "), Ok(15));
    assert_eq!(parse_octal(b"0"), Ok(0));
    assert_eq!(parse_octal(b"777777777777"), Ok(0o777777777777));
}

#[test]
fn octal_parse_rejects_bad_fields() {
    assert_eq!(parse_octal(b""), Err(DecodeError::InvalidNumericField));
    assert_eq!(parse_octal(b"    "), Err(DecodeError::InvalidNumericField));
    assert_eq!(parse_octal(b"\0\0\0\0"), Err(DecodeError::InvalidNumericField));
    assert_eq!(parse_octal(b"12a9"), Err(DecodeError::InvalidNumericField));
    assert_eq!(parse_octal(b"8"), Err(DecodeError::InvalidNumericField));
}

#[test]
fn checksum_of_blank_header() {
    // All zero bytes: only the eight checksum positions count, as spaces.
    let block = vec![0u8; 512];
    assert_eq!(compute_checksum(&block), 8 * 0x20);
    let mut block2 = vec![0u8; 512];
    block2[0] = 1;
    assert_eq!(compute_checksum(&block2), 8 * 0x20 + 1);
    // Bytes inside the checksum field do not change the sum.
    let mut block3 = vec![0u8; 512];
    block3[150] = 0xFF;
    assert_eq!(compute_checksum(&block3), 8 * 0x20);
}

#[test]
fn all_zero_detection() {
    let block = vec![0u8; 512];
    assert!(block_all_zero(&block));
    let mut block2 = vec![0u8; 512];
    block2[511] = 1;
    assert!(!block_all_zero(&block2));
}

#[test]
fn header_magic_recognition() {
    let mut bytes = vec![0u8; 512];
    bytes[257..265].copy_from_slice(b"ustar  \0");
    let h = Header::from_block(bytes);
    assert!(h.is_gnu());
    assert!(!h.is_ustar());
    assert!(h.is_recognized());

    let mut bytes2 = vec![0u8; 512];
    bytes2[257..265].copy_from_slice(b"ustar\x0000");
    let h2 = Header::from_block(bytes2);
    assert!(!h2.is_gnu());
    assert!(h2.is_ustar());
    assert!(h2.is_recognized());

    let h3 = Header::from_block(vec![0u8; 512]);
    assert!(!h3.is_recognized());
}

#[test]
fn block_fill_resumes_partial_reads() {
    let mut fill = BlockFill::new();
    assert_eq!(fill.needed(), 512);
    assert!(!fill.accept(&[1u8; 100]));
    assert_eq!(fill.needed(), 412);
    assert!(!fill.accept(&[2u8; 400]));
    assert_eq!(fill.needed(), 12);
    assert!(fill.accept(&[3u8; 12]));
    assert_eq!(fill.data.len(), 512);
    assert_eq!(fill.data[0], 1);
    assert_eq!(fill.data[100], 2);
    assert_eq!(fill.data[500], 3);
}

#[test]
fn sparse_builder_example() {
    // Fragments [(512, 512)] over physical size 512 reconstruct a hole
    // followed by data, cursor ending at 1024.
    let mut b = SparseBuilder::new(512);
    b.add_fragment(512, 512).unwrap();
    assert_eq!(b.cursor, 1024);
    assert_eq!(b.remaining, 0);
    let segs = b.finish(1024).unwrap();
    assert_eq!(segs, vec![Segment::Zero { len: 512 }, Segment::Data { len: 512 }]);
}

#[test]
fn sparse_builder_error_cases() {
    let mut b = SparseBuilder::new(512);
    b.add_fragment(0, 100).unwrap();
    assert_eq!(b.add_fragment(612, 412), Err(DecodeError::MisalignedFragment));

    let mut b2 = SparseBuilder::new(1024);
    b2.add_fragment(512, 512).unwrap();
    assert_eq!(b2.add_fragment(0, 512), Err(DecodeError::OutOfOrderFragment));

    let mut b3 = SparseBuilder::new(512);
    assert_eq!(b3.add_fragment(0, 1024), Err(DecodeError::OverrunFragment));

    let mut b4 = SparseBuilder::new(u64::MAX);
    assert_eq!(
        b4.add_fragment(u64::MAX, u64::MAX),
        Err(DecodeError::OffsetOverflow)
    );

    let b5 = SparseBuilder::new(0);
    assert_eq!(b5.finish(1), Err(DecodeError::SparseSizeMismatch));
}

#[test]
fn raw_decoder_sees_continuation_records() {
    // The raw stream yields the long-name record itself as an entry.
    let mut block = vec![0u8; 512];
    block[0] = b'n';
    block[124..136].copy_from_slice(b"00000000003\0");
    block[156] = 0x4C;
    block[257..265].copy_from_slice(b"ustar  \0");
    for i in 148..156 {
        block[i] = 0x20;
    }
    let sum: u32 = block.iter().map(|b| *b as u32).sum();
    let digits = format!("{:07o}", sum);
    block[148..155].copy_from_slice(digits.as_bytes());
    block[155] = 0;

    let mut dec = RawDecoder::new(false, 0).unwrap();
    match dec.step(&[]).unwrap() {
        RawStep::NeedBytes { max } => assert_eq!(max, 512),
        _ => panic!("expected a request for bytes"),
    }
    match dec.step(&block).unwrap() {
        RawStep::Entry { entry } => {
            assert_eq!(entry.size, 3);
            assert_eq!(entry.header_pos, 0);
            assert_eq!(entry.file_pos, 512);
            assert_eq!(entry.header.typeflag(), 0x4C);
        }
        _ => panic!("expected an entry"),
    }
}

#[test]
fn raw_decoder_end_at_zero_record() {
    let mut dec = RawDecoder::new(false, 0).unwrap();
    match dec.step(&[]).unwrap() {
        RawStep::NeedBytes { .. } => {}
        _ => panic!("expected a request for bytes"),
    }
    match dec.step(&[0u8; 512]).unwrap() {
        RawStep::End => {}
        _ => panic!("expected end of archive"),
    }
    // And again, idempotently.
    match dec.step(&[]).unwrap() {
        RawStep::End => {}
        _ => panic!("expected end of archive"),
    }
}

#[test]
fn raw_decoder_requires_position_zero() {
    assert_eq!(RawDecoder::new(false, 1).unwrap_err(), DecodeError::NotAtStart);
}

#[test]
fn extraction_order_defers_directories() {
    // A read-only directory followed by a file inside it: the file is
    // applied first, the directory after.
    let flags = vec![true, false];
    assert_eq!(extraction_order(&flags), vec![1, 0]);

    let flags2 = vec![false, true, false, true, false];
    assert_eq!(extraction_order(&flags2), vec![0, 2, 4, 1, 3]);

    let empty: Vec<bool> = Vec::new();
    assert_eq!(extraction_order(&empty), Vec::<usize>::new());
}

#[test]
fn config_builder_defaults_and_setters() {
    let c = DecodeConfig::new();
    assert!(!c.unpack_xattrs);
    assert!(!c.preserve_permissions);
    assert!(c.preserve_mtime);
    assert!(!c.ignore_zeros);
    let c2 = c
        .set_unpack_xattrs(true)
        .set_preserve_permissions(true)
        .set_preserve_mtime(false)
        .set_ignore_zeros(true);
    assert!(c2.unpack_xattrs);
    assert!(c2.preserve_permissions);
    assert!(!c2.preserve_mtime);
    assert!(c2.ignore_zeros);
}

#[test]
fn error_descriptions_name_each_failure() {
    assert!(DecodeError::ChecksumMismatch.describe().contains("checksum"));
    assert!(DecodeError::DuplicateContinuation.describe().contains("two"));
    assert!(DecodeError::NotAtStart.describe().contains("position 0"));
}
