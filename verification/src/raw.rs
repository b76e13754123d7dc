use vstd::prelude::*;
use crate::error::DecodeError;
use crate::fill::BlockFill;
use crate::header::{block_all_zero, compute_checksum, spec_all_zero, spec_checksum, Header,
    BLOCK_SIZE, CKSUM_END, CKSUM_START};
use crate::octal::spec_parse_octal;

verus! {

/// Where the raw decoder stands between two feedings.
#[derive(Debug)]
pub enum RawPhase {
    /// Between records: nothing is in flight. Bytes of the previous entry's
    /// content that the consumer did not read are still ahead of `next`.
    Idle,
    /// Discarding bytes until the next record boundary at `next`.
    Seek { remaining: u64 },
    /// Filling the next 512-byte header record, which starts at `next`.
    Fill { fill: BlockFill },
    /// End of archive: every further pull answers `End` again.
    Done,
}

/// One entry exactly as the header reader produced it: continuation records
/// are not merged and sparse fragments are not resolved.
#[derive(Debug)]
pub struct RawEntry {
    /// The validated non-zero header record.
    pub header: Header,
    /// Absolute position of the header record in the stream.
    pub header_pos: u64,
    /// Absolute position of the first content byte.
    pub file_pos: u64,
    /// The declared content size in bytes.
    pub size: u64,
}

impl RawEntry {
    pub open spec fn wf(&self) -> bool {
        self.header.wf()
    }
}

/// What one feeding of the raw decoder produced.
#[derive(Debug)]
pub enum RawStep {
    /// Read up to `max` further bytes and feed them in.
    NeedBytes { max: u64 },
    /// The next entry, fully read past its header.
    Entry { entry: RawEntry },
    /// End of archive. Terminal: later pulls answer `End` again.
    End,
}

/// The decoder of the raw entry sequence: a resumable state machine that
/// turns fed byte chunks into one `RawEntry` per non-zero header record.
///
/// `pos` is the absolute number of source bytes consumed so far; `next` the
/// absolute position of the next record boundary. The caller reads bytes
/// from its source and feeds each delivery to `step`; end of source is
/// reported through `step_eof`. Content bytes the caller reads for itself
/// are reported through `note_read`.
#[derive(Debug)]
pub struct RawDecoder {
    pub pos: u64,
    pub next: u64,
    pub ignore_zeros: bool,
    pub failed: bool,
    pub phase: RawPhase,
}

/// The header record that a completed fill holds: the bytes kept from
/// earlier deliveries followed by the final chunk.
pub open spec fn completed_block(fill: BlockFill, chunk: Seq<u8>) -> Seq<u8> {
    fill.data@ + chunk
}

/// Checksum validation outcome of a completed header record, as the decoder
/// reports it: the stored checksum field must parse as octal and equal the
/// computed sum.
pub open spec fn checksum_verdict(block: Seq<u8>) -> Result<(), DecodeError> {
    match spec_parse_octal(block.subrange(CKSUM_START as int, CKSUM_END as int)) {
        None => Err(DecodeError::InvalidNumericField),
        Some(v) => if v == spec_checksum(block) {
            Ok(())
        } else {
            Err(DecodeError::ChecksumMismatch)
        },
    }
}

/// Content sizes are rounded up to whole 512-byte records to find the next
/// record boundary.
pub open spec fn round_up_block(n: int) -> int {
    (n + 511) / 512 * 512
}

/// The full transition relation of `RawDecoder::step`: how one feeding of
/// `chunk` takes the decoder from `pre` to `post` with result `r`.
pub open spec fn raw_step_spec(
    pre: RawDecoder,
    chunk: Seq<u8>,
    post: RawDecoder,
    r: Result<RawStep, DecodeError>,
) -> bool {
    match pre.phase {
        // End of archive is idempotent: the decoder never moves again.
        RawPhase::Done => r == Ok::<RawStep, DecodeError>(RawStep::End) && post == pre,
        RawPhase::Idle => if pre.pos < pre.next {
            // Bytes of the previous entry are still unread: discard them.
            &&& r == Ok::<RawStep, DecodeError>(RawStep::NeedBytes {
                max: (pre.next - pre.pos) as u64,
            })
            &&& post == (RawDecoder {
                phase: RawPhase::Seek { remaining: (pre.next - pre.pos) as u64 },
                ..pre
            })
        } else {
            raw_start_fill_spec(pre, post, r)
        },
        RawPhase::Seek { remaining } => if chunk.len() < remaining {
            &&& r == Ok::<RawStep, DecodeError>(RawStep::NeedBytes {
                max: (remaining - chunk.len()) as u64,
            })
            &&& post == (RawDecoder {
                pos: (pre.pos + chunk.len()) as u64,
                phase: RawPhase::Seek { remaining: (remaining - chunk.len()) as u64 },
                ..pre
            })
        } else {
            raw_start_fill_spec(
                RawDecoder { pos: (pre.pos + chunk.len()) as u64, ..pre },
                post,
                r,
            )
        },
        RawPhase::Fill { fill } => if fill.spec_filled() + chunk.len() < BLOCK_SIZE {
            // The record is still incomplete: keep what arrived.
            &&& r == Ok::<RawStep, DecodeError>(RawStep::NeedBytes {
                max: (BLOCK_SIZE - fill.spec_filled() - chunk.len()) as u64,
            })
            &&& post.pos == pre.pos + chunk.len()
            &&& post.next == pre.next
            &&& post.ignore_zeros == pre.ignore_zeros
            &&& post.failed == pre.failed
            &&& (post.phase matches RawPhase::Fill { fill: f2 } && f2.data@ == fill.data@ + chunk)
        } else {
            raw_block_spec(
                RawDecoder { pos: (pre.pos + chunk.len()) as u64, ..pre },
                completed_block(fill, chunk),
                post,
                r,
            )
        },
    }
}

/// Transition into filling a header record at `pre.next` (where
/// `pre.pos == pre.next`), guarding the record against position overflow.
pub open spec fn raw_start_fill_spec(
    pre: RawDecoder,
    post: RawDecoder,
    r: Result<RawStep, DecodeError>,
) -> bool {
    if pre.next + BLOCK_SIZE > u64::MAX {
        r == Err::<RawStep, DecodeError>(DecodeError::OffsetOverflow)
    } else {
        &&& r == Ok::<RawStep, DecodeError>(RawStep::NeedBytes { max: BLOCK_SIZE as u64 })
        &&& post.pos == pre.pos
        &&& post.next == pre.next
        &&& post.ignore_zeros == pre.ignore_zeros
        &&& post.failed == pre.failed
        &&& (post.phase matches RawPhase::Fill { fill } && fill.data@ == Seq::<u8>::empty())
    }
}

/// What the decoder does with one completed header record `block` that
/// starts at `pre.next` (with `pre.pos` already past the record's bytes).
pub open spec fn raw_block_spec(
    pre: RawDecoder,
    block: Seq<u8>,
    post: RawDecoder,
    r: Result<RawStep, DecodeError>,
) -> bool {
    if spec_all_zero(block) {
        if !pre.ignore_zeros {
            // A zeroed record ends the archive.
            &&& r == Ok::<RawStep, DecodeError>(RawStep::End)
            &&& post == (RawDecoder { phase: RawPhase::Done, ..pre })
        } else {
            // Skip the zeroed record and read the next one.
            raw_start_fill_spec(
                RawDecoder { next: (pre.next + BLOCK_SIZE) as u64, ..pre },
                post,
                r,
            )
        }
    } else {
        let next1 = pre.next + BLOCK_SIZE;
        match checksum_verdict(block) {
            Err(e) => r == Err::<RawStep, DecodeError>(e),
            Ok(()) => match spec_parse_octal(block.subrange(124, 136)) {
                None => r == Err::<RawStep, DecodeError>(DecodeError::InvalidNumericField),
                Some(size) => if next1 + round_up_block(size) > u64::MAX {
                    r == Err::<RawStep, DecodeError>(DecodeError::OffsetOverflow)
                } else {
                    &&& (r matches Ok(RawStep::Entry { entry }) && entry.header.bytes@ == block
                        && entry.header_pos == pre.next
                        && entry.file_pos == next1
                        && entry.size == size)
                    &&& post.pos == pre.pos
                    &&& post.next == next1 + round_up_block(size)
                    &&& post.ignore_zeros == pre.ignore_zeros
                    &&& post.failed == pre.failed
                    &&& post.phase is Idle
                },
            },
        }
    }
}

/// The transition relation of `RawDecoder::step_eof`: what one report of
/// end-of-source does from state `pre`.
pub open spec fn raw_eof_spec(
    pre: RawDecoder,
    post: RawDecoder,
    r: Result<RawStep, DecodeError>,
) -> bool {
    match pre.phase {
        RawPhase::Done => r == Ok::<RawStep, DecodeError>(RawStep::End) && post == pre,
        RawPhase::Idle => if pre.pos < pre.next {
            r == Err::<RawStep, DecodeError>(DecodeError::UnexpectedEnd)
        } else {
            // The source ended exactly at a record boundary.
            &&& r == Ok::<RawStep, DecodeError>(RawStep::End)
            &&& post == (RawDecoder { phase: RawPhase::Done, ..pre })
        },
        RawPhase::Seek { .. } => r == Err::<RawStep, DecodeError>(DecodeError::UnexpectedEnd),
        RawPhase::Fill { fill } => if fill.spec_filled() == 0 {
            // No partial header in flight: a clean end of archive.
            &&& r == Ok::<RawStep, DecodeError>(RawStep::End)
            &&& post == (RawDecoder { phase: RawPhase::Done, ..pre })
        } else {
            r == Err::<RawStep, DecodeError>(DecodeError::TruncatedHeader)
        },
    }
}

impl RawDecoder {
    pub open spec fn wf(&self) -> bool {
        match self.phase {
            RawPhase::Idle => self.pos <= self.next,
            RawPhase::Seek { remaining } => self.pos + remaining == self.next,
            RawPhase::Fill { fill } => fill.wf() && self.pos == self.next + fill.spec_filled()
                && self.next + BLOCK_SIZE <= u64::MAX,
            RawPhase::Done => true,
        }
    }

    /// How many bytes the decoder can accept in the next feeding.
    pub open spec fn can_accept(&self) -> int {
        match self.phase {
            RawPhase::Idle => 0,
            RawPhase::Seek { remaining } => remaining as int,
            RawPhase::Fill { fill } => BLOCK_SIZE - fill.spec_filled(),
            RawPhase::Done => 0,
        }
    }

    /// Begin decoding a source whose read position is `pos`.
    ///
    /// Fails with `NotAtStart` exactly when the source is not at position 0:
    /// a stream decoded from the middle of a source would misread every
    /// record boundary.
    pub fn new(ignore_zeros: bool, pos: u64) -> (r: Result<RawDecoder, DecodeError>)
        ensures
            pos == 0 ==> (r matches Ok(d) && d == (RawDecoder {
                pos: 0,
                next: 0,
                ignore_zeros,
                failed: false,
                phase: RawPhase::Idle,
            })),
            pos != 0 ==> r == Err::<RawDecoder, DecodeError>(DecodeError::NotAtStart),
    {
        if pos != 0 {
            return Err(DecodeError::NotAtStart);
        }
        Ok(RawDecoder { pos: 0, next: 0, ignore_zeros, failed: false, phase: RawPhase::Idle })
    }

    /// Account for `n` content bytes the consumer read from the source for
    /// itself, between records.
    pub fn note_read(&mut self, n: u64)
        requires
            old(self).wf(),
            old(self).phase is Idle,
            old(self).pos + n <= old(self).next,
        ensures
            final(self).wf(),
            *final(self) == (RawDecoder { pos: (old(self).pos + n) as u64, ..*old(self) }),
    {
        self.pos = self.pos + n;
    }

    /// Feed the bytes one read delivered (an empty chunk merely asks what
    /// is needed next).
    pub fn step(&mut self, chunk: &[u8]) -> (r: Result<RawStep, DecodeError>)
        requires
            old(self).wf(),
            !old(self).failed,
            chunk@.len() <= old(self).can_accept() || old(self).phase is Idle,
            old(self).phase is Idle ==> chunk@.len() == 0,
        ensures
            raw_step_spec(*old(self), chunk@, *final(self), r),
            r is Ok ==> final(self).wf() && !final(self).failed,
            r is Err ==> final(self).failed,
            (r matches Ok(RawStep::Entry { entry }) ==> entry.wf()),
    {
        let mut ph = RawPhase::Idle;
        core::mem::swap(&mut self.phase, &mut ph);
        match ph {
            RawPhase::Done => {
                self.phase = RawPhase::Done;
                Ok(RawStep::End)
            }
            RawPhase::Idle => {
                if self.pos < self.next {
                    let delta = self.next - self.pos;
                    self.phase = RawPhase::Seek { remaining: delta };
                    Ok(RawStep::NeedBytes { max: delta })
                } else {
                    self.start_fill()
                }
            }
            RawPhase::Seek { remaining } => {
                let len = chunk.len() as u64;
                self.pos = self.pos + len;
                let rem2 = remaining - len;
                if rem2 > 0 {
                    self.phase = RawPhase::Seek { remaining: rem2 };
                    Ok(RawStep::NeedBytes { max: rem2 })
                } else {
                    self.start_fill()
                }
            }
            RawPhase::Fill { mut fill } => {
                let len = chunk.len() as u64;
                let done = fill.accept(chunk);
                self.pos = self.pos + len;
                if !done {
                    let need = fill.needed();
                    self.phase = RawPhase::Fill { fill };
                    Ok(RawStep::NeedBytes { max: need as u64 })
                } else {
                    self.process_block(fill.data)
                }
            }
        }
    }

    /// Report that the source ended (a read delivered no bytes at all).
    pub fn step_eof(&mut self) -> (r: Result<RawStep, DecodeError>)
        requires
            old(self).wf(),
            !old(self).failed,
        ensures
            raw_eof_spec(*old(self), *final(self), r),
            r is Ok ==> final(self).wf() && !final(self).failed,
            r is Err ==> final(self).failed,
    {
        let mut ph = RawPhase::Idle;
        core::mem::swap(&mut self.phase, &mut ph);
        match ph {
            RawPhase::Done => {
                self.phase = RawPhase::Done;
                Ok(RawStep::End)
            }
            RawPhase::Idle => {
                if self.pos < self.next {
                    self.failed = true;
                    self.phase = RawPhase::Done;
                    Err(DecodeError::UnexpectedEnd)
                } else {
                    self.phase = RawPhase::Done;
                    Ok(RawStep::End)
                }
            }
            RawPhase::Seek { .. } => {
                self.failed = true;
                self.phase = RawPhase::Done;
                Err(DecodeError::UnexpectedEnd)
            }
            RawPhase::Fill { fill } => {
                if fill.data.len() == 0 {
                    self.phase = RawPhase::Done;
                    Ok(RawStep::End)
                } else {
                    self.failed = true;
                    self.phase = RawPhase::Done;
                    Err(DecodeError::TruncatedHeader)
                }
            }
        }
    }

    /// Begin filling a header record at `self.next` (the current position).
    fn start_fill(&mut self) -> (r: Result<RawStep, DecodeError>)
        requires
            old(self).pos == old(self).next,
            !old(self).failed,
        ensures
            raw_start_fill_spec(*old(self), *final(self), r),
            r is Ok ==> final(self).wf() && !final(self).failed,
            r is Err ==> final(self).failed,
    {
        if self.next > u64::MAX - (BLOCK_SIZE as u64) {
            self.failed = true;
            self.phase = RawPhase::Done;
            return Err(DecodeError::OffsetOverflow);
        }
        self.phase = RawPhase::Fill { fill: BlockFill::new() };
        Ok(RawStep::NeedBytes { max: BLOCK_SIZE as u64 })
    }

    /// Decide what one completed header record means.
    fn process_block(&mut self, block: Vec<u8>) -> (r: Result<RawStep, DecodeError>)
        requires
            block@.len() == BLOCK_SIZE,
            old(self).pos == old(self).next + BLOCK_SIZE,
            old(self).next + BLOCK_SIZE <= u64::MAX,
            !old(self).failed,
        ensures
            raw_block_spec(*old(self), block@, *final(self), r),
            r is Ok ==> final(self).wf() && !final(self).failed,
            r is Err ==> final(self).failed,
            (r matches Ok(RawStep::Entry { entry }) ==> entry.wf()),
    {
        if block_all_zero(block.as_slice()) {
            if !self.ignore_zeros {
                self.phase = RawPhase::Done;
                return Ok(RawStep::End);
            }
            self.next = self.next + (BLOCK_SIZE as u64);
            return self.start_fill();
        }

        let header_pos = self.next;
        self.next = self.next + (BLOCK_SIZE as u64);

        let sum = compute_checksum(block.as_slice());
        let header = Header::from_block(block);
        let stored = match header.cksum() {
            Ok(v) => v,
            Err(e) => {
                self.failed = true;
                self.phase = RawPhase::Done;
                return Err(e);
            }
        };
        if stored != (sum as u64) {
            self.failed = true;
            self.phase = RawPhase::Done;
            return Err(DecodeError::ChecksumMismatch);
        }

        let size = match header.entry_size() {
            Ok(v) => v,
            Err(e) => {
                self.failed = true;
                self.phase = RawPhase::Done;
                return Err(e);
            }
        };

        let file_pos = self.next;

        // Find the next record boundary, rounding the content up to whole
        // records.
        proof {
            vstd::arithmetic::div_mod::lemma_fundamental_div_mod(size + 511, 512);
            vstd::arithmetic::div_mod::lemma_mod_bound(size + 511, 512);
        }
        if size > u64::MAX - 511 {
            self.failed = true;
            self.phase = RawPhase::Done;
            return Err(DecodeError::OffsetOverflow);
        }
        let rounded = (size + 511) / 512 * 512;
        if self.next > u64::MAX - rounded {
            self.failed = true;
            self.phase = RawPhase::Done;
            return Err(DecodeError::OffsetOverflow);
        }
        self.next = self.next + rounded;
        self.phase = RawPhase::Idle;

        Ok(RawStep::Entry { entry: RawEntry { header, header_pos, file_pos, size } })
    }
}

/// Law: without `ignore_zeros`, a zero-filled header record ends the
/// archive.
pub proof fn lemma_zero_record_ends_archive(
    pre: RawDecoder,
    block: Seq<u8>,
    post: RawDecoder,
    r: Result<RawStep, DecodeError>,
)
    requires
        raw_block_spec(pre, block, post, r),
        spec_all_zero(block),
        !pre.ignore_zeros,
    ensures
        r == Ok::<RawStep, DecodeError>(RawStep::End),
        post.phase is Done,
{
}

/// Law: with `ignore_zeros`, a zero-filled header record is skipped and the
/// next record is read in its place, supporting concatenated archives.
pub proof fn lemma_zero_record_skipped_when_ignoring(
    pre: RawDecoder,
    block: Seq<u8>,
    post: RawDecoder,
    r: Result<RawStep, DecodeError>,
)
    requires
        raw_block_spec(pre, block, post, r),
        spec_all_zero(block),
        pre.ignore_zeros,
        pre.next + 2 * BLOCK_SIZE <= u64::MAX,
    ensures
        r == Ok::<RawStep, DecodeError>(RawStep::NeedBytes { max: BLOCK_SIZE as u64 }),
        post.next == pre.next + BLOCK_SIZE,
        !(post.phase is Done),
{
}

/// Law: a pull that answers "end of archive" leaves the decoder in its
/// terminal state.
pub proof fn lemma_end_is_terminal(
    pre: RawDecoder,
    chunk: Seq<u8>,
    post: RawDecoder,
    r: Result<RawStep, DecodeError>,
)
    requires
        raw_step_spec(pre, chunk, post, r),
        r == Ok::<RawStep, DecodeError>(RawStep::End),
    ensures
        post.phase is Done,
{
}

/// Law: from the terminal state, every further pull answers "end of
/// archive" again and changes nothing.
pub proof fn lemma_end_is_idempotent(
    pre: RawDecoder,
    chunk: Seq<u8>,
    post: RawDecoder,
    r: Result<RawStep, DecodeError>,
)
    requires
        pre.phase is Done,
        raw_step_spec(pre, chunk, post, r),
    ensures
        r == Ok::<RawStep, DecodeError>(RawStep::End),
        post == pre,
{
}

}
