use vstd::prelude::*;
use vstd::slice::slice_subrange;
use crate::error::DecodeError;
use crate::octal::{parse_octal, spec_parse_octal};

verus! {

/// Size of one header record and of the alignment unit of the format.
pub const BLOCK_SIZE: usize = 512;

/// First byte of the checksum field.
pub const CKSUM_START: usize = 148;

/// One past the last byte of the checksum field.
pub const CKSUM_END: usize = 156;

/// The byte a checksum-field position counts as while summing.
pub const CKSUM_PLACEHOLDER: u8 = 0x20;

/// Byte `i` of a header as the checksum sums it: positions inside the
/// checksum field count as ASCII space.
pub open spec fn masked_byte(s: Seq<u8>, i: int) -> u8 {
    if CKSUM_START <= i < CKSUM_END {
        CKSUM_PLACEHOLDER
    } else {
        s[i]
    }
}

/// Sum of the first `n` masked bytes of a header.
pub open spec fn masked_prefix_sum(s: Seq<u8>, n: int) -> int
    decreases n
{
    if n <= 0 {
        0
    } else {
        masked_prefix_sum(s, n - 1) + masked_byte(s, n - 1)
    }
}

/// The checksum of a 512-byte header record: the sum of all its bytes with
/// the eight checksum-field bytes each counted as ASCII space.
pub open spec fn spec_checksum(s: Seq<u8>) -> int {
    masked_prefix_sum(s, BLOCK_SIZE as int)
}

/// A header record passes validation when its checksum field holds an octal
/// number equal to the computed checksum.
pub open spec fn checksum_ok(s: Seq<u8>) -> bool {
    spec_parse_octal(s.subrange(CKSUM_START as int, CKSUM_END as int)) == Some(spec_checksum(s))
}

/// Compute the checksum of a header record.
pub fn compute_checksum(h: &[u8]) -> (r: u32)
    requires
        h@.len() == BLOCK_SIZE,
    ensures
        r == spec_checksum(h@),
{
    let mut acc: u32 = 0;
    let mut i: usize = 0;
    while i < BLOCK_SIZE
        invariant
            0 <= i <= BLOCK_SIZE,
            h@.len() == BLOCK_SIZE,
            acc == masked_prefix_sum(h@, i as int),
            acc <= 255 * i,
        decreases BLOCK_SIZE - i,
    {
        if i >= CKSUM_START && i < CKSUM_END {
            acc = acc + (CKSUM_PLACEHOLDER as u32);
        } else {
            acc = acc + (h[i] as u32);
        }
        i += 1;
    }
    acc
}

proof fn lemma_masked_sum_single_difference(s1: Seq<u8>, s2: Seq<u8>, i: int, n: int)
    requires
        s1.len() == s2.len(),
        0 <= i < s1.len(),
        forall|j: int| 0 <= j < s1.len() && j != i ==> s1[j] == s2[j],
        0 <= n <= s1.len(),
    ensures
        masked_prefix_sum(s2, n) == masked_prefix_sum(s1, n) + (
            if i < n { masked_byte(s2, i) - masked_byte(s1, i) } else { 0 }
        ),
    decreases n,
{
    if n > 0 {
        lemma_masked_sum_single_difference(s1, s2, i, n - 1);
    }
}

/// Law: flipping any single byte of a checksum-valid header outside the
/// checksum field makes the checksum validation fail on the result.
pub proof fn lemma_byte_flip_breaks_checksum(s1: Seq<u8>, s2: Seq<u8>, i: int)
    requires
        s1.len() == BLOCK_SIZE,
        s2.len() == BLOCK_SIZE,
        0 <= i < BLOCK_SIZE,
        !(CKSUM_START <= i < CKSUM_END),
        s1[i] != s2[i],
        forall|j: int| 0 <= j < BLOCK_SIZE && j != i ==> s1[j] == s2[j],
        checksum_ok(s1),
    ensures
        !checksum_ok(s2),
{
    assert(s1.subrange(CKSUM_START as int, CKSUM_END as int) =~= s2.subrange(
        CKSUM_START as int,
        CKSUM_END as int,
    ));
    lemma_masked_sum_single_difference(s1, s2, i, BLOCK_SIZE as int);
    assert(masked_byte(s1, i) == s1[i]);
    assert(masked_byte(s2, i) == s2[i]);
}

/// A 512-byte header record, interpreted as classic, ustar or GNU layout
/// depending on its magic bytes.
#[derive(Debug)]
pub struct Header {
    pub bytes: Vec<u8>,
}

/// The GNU magic and version bytes stand at positions 257 to 264.
pub open spec fn spec_is_gnu(s: Seq<u8>) -> bool {
    &&& s[257] == 0x75  // 'u'
    &&& s[258] == 0x73  // 's'
    &&& s[259] == 0x74  // 't'
    &&& s[260] == 0x61  // 'a'
    &&& s[261] == 0x72  // 'r'
    &&& s[262] == 0x20
    &&& s[263] == 0x20
    &&& s[264] == 0x00
}

/// The POSIX ustar magic and version bytes stand at positions 257 to 264.
pub open spec fn spec_is_ustar(s: Seq<u8>) -> bool {
    &&& s[257] == 0x75  // 'u'
    &&& s[258] == 0x73  // 's'
    &&& s[259] == 0x74  // 't'
    &&& s[260] == 0x61  // 'a'
    &&& s[261] == 0x72  // 'r'
    &&& s[262] == 0x00
    &&& s[263] == 0x30  // '0'
    &&& s[264] == 0x30  // '0'
}

/// A header whose magic bytes name one of the two extended layouts.
pub open spec fn spec_is_recognized(s: Seq<u8>) -> bool {
    spec_is_gnu(s) || spec_is_ustar(s)
}

pub open spec fn spec_all_zero(s: Seq<u8>) -> bool {
    forall|i: int| 0 <= i < s.len() ==> #[trigger] s[i] == 0x00
}

/// Whether every byte of the record is zero (an archive terminator record).
pub fn block_all_zero(block: &[u8]) -> (r: bool)
    ensures
        r == spec_all_zero(block@),
{
    let n: usize = block.len();
    let mut i: usize = 0;
    let mut all: bool = true;
    while i < n
        invariant
            0 <= i <= n,
            n == block@.len(),
            all <==> (forall|j: int| 0 <= j < i ==> #[trigger] block@[j] == 0x00),
        decreases n - i,
    {
        if block[i] != 0x00 {
            all = false;
        }
        i += 1;
    }
    all
}

/// Entry-type tags the decoder treats specially.
pub const TYPE_GNU_LONGNAME: u8 = 0x4C;  // 'L'

pub const TYPE_GNU_LONGLINK: u8 = 0x4B;  // 'K'

pub const TYPE_PAX_LOCAL: u8 = 0x78;  // 'x'

pub const TYPE_GNU_SPARSE: u8 = 0x53;  // 'S'

pub const TYPE_DIRECTORY: u8 = 0x35;  // '5'

/// A sparse fragment descriptor is empty (an unused slot) when all of its
/// 24 bytes are NUL or ASCII space.
pub open spec fn spec_fragment_empty(s: Seq<u8>, base: int) -> bool {
    forall|i: int| base <= i < base + 24 ==> (#[trigger] s[i] == 0x00 || s[i] == 0x20)
}

impl Header {
    pub open spec fn wf(&self) -> bool {
        self.bytes@.len() == BLOCK_SIZE
    }

    /// Wrap one complete 512-byte record.
    pub fn from_block(bytes: Vec<u8>) -> (h: Header)
        requires
            bytes@.len() == BLOCK_SIZE,
        ensures
            h.wf(),
            h.bytes@ == bytes@,
    {
        Header { bytes }
    }

    /// The entry-type tag byte.
    pub fn typeflag(&self) -> (r: u8)
        requires
            self.wf(),
        ensures
            r == self.bytes@[156],
    {
        self.bytes[156]
    }

    pub fn is_gnu(&self) -> (r: bool)
        requires
            self.wf(),
        ensures
            r == spec_is_gnu(self.bytes@),
    {
        self.bytes[257] == 0x75 && self.bytes[258] == 0x73 && self.bytes[259] == 0x74
            && self.bytes[260] == 0x61 && self.bytes[261] == 0x72 && self.bytes[262] == 0x20
            && self.bytes[263] == 0x20 && self.bytes[264] == 0x00
    }

    pub fn is_ustar(&self) -> (r: bool)
        requires
            self.wf(),
        ensures
            r == spec_is_ustar(self.bytes@),
    {
        self.bytes[257] == 0x75 && self.bytes[258] == 0x73 && self.bytes[259] == 0x74
            && self.bytes[260] == 0x61 && self.bytes[261] == 0x72 && self.bytes[262] == 0x00
            && self.bytes[263] == 0x30 && self.bytes[264] == 0x30
    }

    /// Whether the record is interpretable as a GNU or ustar header.
    pub fn is_recognized(&self) -> (r: bool)
        requires
            self.wf(),
        ensures
            r == spec_is_recognized(self.bytes@),
    {
        self.is_gnu() || self.is_ustar()
    }

    /// The declared checksum: the octal number in bytes 148 to 155.
    pub fn cksum(&self) -> (r: Result<u64, DecodeError>)
        requires
            self.wf(),
        ensures
            (match spec_parse_octal(self.bytes@.subrange(CKSUM_START as int, CKSUM_END as int)) {
                Some(v) => r == Ok::<u64, DecodeError>(v as u64) && 0 <= v <= u64::MAX,
                None => r == Err::<u64, DecodeError>(DecodeError::InvalidNumericField),
            }),
    {
        let field = slice_subrange(self.bytes.as_slice(), CKSUM_START, CKSUM_END);
        parse_octal(field)
    }

    /// The declared entry size: the octal number in bytes 124 to 135.
    pub fn entry_size(&self) -> (r: Result<u64, DecodeError>)
        requires
            self.wf(),
        ensures
            (match spec_parse_octal(self.bytes@.subrange(124, 136)) {
                Some(v) => r == Ok::<u64, DecodeError>(v as u64) && 0 <= v <= u64::MAX,
                None => r == Err::<u64, DecodeError>(DecodeError::InvalidNumericField),
            }),
    {
        let field = slice_subrange(self.bytes.as_slice(), 124, 136);
        parse_octal(field)
    }

    /// The declared logical (real) size of a GNU sparse entry: the octal
    /// number in bytes 483 to 494 of the GNU layout.
    pub fn gnu_real_size(&self) -> (r: Result<u64, DecodeError>)
        requires
            self.wf(),
        ensures
            (match spec_parse_octal(self.bytes@.subrange(483, 495)) {
                Some(v) => r == Ok::<u64, DecodeError>(v as u64) && 0 <= v <= u64::MAX,
                None => r == Err::<u64, DecodeError>(DecodeError::InvalidNumericField),
            }),
    {
        let field = slice_subrange(self.bytes.as_slice(), 483, 495);
        parse_octal(field)
    }

    /// The GNU layout's flag for chained extended sparse header blocks.
    pub fn gnu_is_extended(&self) -> (r: bool)
        requires
            self.wf(),
        ensures
            r == (self.bytes@[482] == 0x01),
    {
        self.bytes[482] == 0x01
    }
}

/// Whether the sparse fragment descriptor at `base` is an unused slot.
pub fn fragment_empty(block: &[u8], base: usize) -> (r: bool)
    requires
        base + 24 <= block@.len(),
    ensures
        r == spec_fragment_empty(block@, base as int),
{
    let n: usize = block.len();
    let mut i: usize = 0;
    let mut all: bool = true;
    while i < 24
        invariant
            0 <= i <= 24,
            n == block@.len(),
            base + 24 <= block@.len(),
            all <==> (forall|j: int|
                base <= j < base + i ==> (#[trigger] block@[j] == 0x00 || block@[j] == 0x20)),
        decreases 24 - i,
    {
        let b = block[base + i];
        if b != 0x00 && b != 0x20 {
            all = false;
        }
        i += 1;
    }
    all
}

/// Parse the sparse fragment descriptor at `base`: a 12-byte octal logical
/// offset followed by a 12-byte octal length.
pub fn read_fragment(block: &[u8], base: usize) -> (r: Result<(u64, u64), DecodeError>)
    requires
        base + 24 <= block@.len(),
    ensures
        (match (
            spec_parse_octal(block@.subrange(base as int, base + 12)),
            spec_parse_octal(block@.subrange(base + 12, base + 24)),
        ) {
            (Some(off), Some(len)) => r == Ok::<(u64, u64), DecodeError>((off as u64, len as u64))
                && 0 <= off <= u64::MAX && 0 <= len <= u64::MAX,
            _ => r == Err::<(u64, u64), DecodeError>(DecodeError::InvalidNumericField),
        }),
{
    let n: usize = block.len();
    assert(base + 24 <= n);
    let off_field = slice_subrange(block, base, base + 12);
    let len_field = slice_subrange(block, base + 12, base + 24);
    let off = parse_octal(off_field)?;
    let len = parse_octal(len_field)?;
    Ok((off, len))
}

}
