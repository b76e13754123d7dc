use vstd::prelude::*;
use crate::error::DecodeError;
use crate::header::{fragment_empty, read_fragment};

verus! {

/// One piece of an entry's logical content stream: either bytes read from
/// the underlying source at the current position, or implicit zero bytes
/// that consume nothing from the source.
#[derive(Clone, Copy, PartialEq, Eq, Structural, Debug)]
pub enum Segment {
    Data { len: u64 },
    Zero { len: u64 },
}

/// How many logical content bytes a segment contributes.
pub open spec fn seg_len(s: Segment) -> int {
    match s {
        Segment::Data { len } => len as int,
        Segment::Zero { len } => len as int,
    }
}

/// Total logical content length of a segment list.
pub open spec fn segs_total(ss: Seq<Segment>) -> int
    decreases ss.len()
{
    if ss.len() == 0 {
        0
    } else {
        segs_total(ss.drop_last()) + seg_len(ss.last())
    }
}

/// Total number of bytes a segment list consumes from the source.
pub open spec fn segs_data_total(ss: Seq<Segment>) -> int
    decreases ss.len()
{
    if ss.len() == 0 {
        0
    } else {
        segs_data_total(ss.drop_last()) + (match ss.last() {
            Segment::Data { len } => len as int,
            Segment::Zero { .. } => 0,
        })
    }
}


/// The reconstruction state as mathematics: what the builder holds, with
/// no executable representation attached.
pub struct SparseModel {
    pub segments: Seq<Segment>,
    pub cursor: int,
    pub remaining: int,
}

/// The model of a builder's current state.
pub open spec fn model_of(b: SparseBuilder) -> SparseModel {
    SparseModel {
        segments: b.segments@,
        cursor: b.cursor as int,
        remaining: b.remaining as int,
    }
}

/// What accepting one non-empty fragment `(off, len)` does to the model,
/// for an entry of declared physical size `size`: exactly the rules of
/// `SparseBuilder::add_fragment`.
pub open spec fn add_fragment_model(
    m: SparseModel,
    size: int,
    off: int,
    len: int,
) -> Result<SparseModel, DecodeError> {
    if (size - m.remaining) % 512 != 0 {
        Err(DecodeError::MisalignedFragment)
    } else if off < m.cursor {
        Err(DecodeError::OutOfOrderFragment)
    } else if len > m.remaining {
        Err(DecodeError::OverrunFragment)
    } else if off + len > u64::MAX {
        Err(DecodeError::OffsetOverflow)
    } else {
        Ok(
            SparseModel {
                segments: m.segments + (if off > m.cursor {
                    seq![Segment::Zero { len: (off - m.cursor) as u64 }]
                } else {
                    Seq::<Segment>::empty()
                }) + seq![Segment::Data { len: len as u64 }],
                cursor: off + len,
                remaining: m.remaining - len,
            },
        )
    }
}

/// What the fragment descriptor at `base` of a header or extension block
/// does to the model: an empty slot is skipped, anything else must parse
/// and obey the fragment rules.
pub open spec fn fragment_step_model(
    m: Result<SparseModel, DecodeError>,
    block: Seq<u8>,
    size: int,
    base: int,
) -> Result<SparseModel, DecodeError> {
    match m {
        Err(e) => Err(e),
        Ok(mm) => if crate::header::spec_fragment_empty(block, base) {
            Ok(mm)
        } else {
            match (
                crate::octal::spec_parse_octal(block.subrange(base, base + 12)),
                crate::octal::spec_parse_octal(block.subrange(base + 12, base + 24)),
            ) {
                (Some(off), Some(len)) => add_fragment_model(mm, size, off, len),
                _ => Err(DecodeError::InvalidNumericField),
            }
        },
    }
}

/// Folding `count` fragment descriptors, 24 bytes apart starting at
/// `base`, over the model.
pub open spec fn fold_fragments_model(
    m: Result<SparseModel, DecodeError>,
    block: Seq<u8>,
    size: int,
    base: int,
    count: nat,
) -> Result<SparseModel, DecodeError>
    decreases count
{
    if count == 0 {
        m
    } else {
        match m {
            Err(e) => Err(e),
            Ok(mm) => fold_fragments_model(
                fragment_step_model(Ok(mm), block, size, base),
                block,
                size,
                base + 24,
                (count - 1) as nat,
            ),
        }
    }
}

/// Folding splits: the first `k` descriptors, then the remaining `rest`.
pub proof fn lemma_fold_fragments_split(
    m: Result<SparseModel, DecodeError>,
    block: Seq<u8>,
    size: int,
    base: int,
    k: nat,
    rest: nat,
)
    ensures
        fold_fragments_model(m, block, size, base, k + rest) == fold_fragments_model(
            fold_fragments_model(m, block, size, base, k),
            block,
            size,
            base + 24 * k,
            rest,
        ),
    decreases k,
{
    if k > 0 {
        match m {
            Err(e) => {
                lemma_fold_fragments_err(block, size, base, k + rest, e);
                lemma_fold_fragments_err(block, size, base, k, e);
                lemma_fold_fragments_err(block, size, base + 24 * k, rest, e);
            }
            Ok(mm) => {
                lemma_fold_fragments_split(
                    fragment_step_model(Ok(mm), block, size, base),
                    block,
                    size,
                    base + 24,
                    (k - 1) as nat,
                    rest,
                );
            }
        }
    }
}

/// A failed fold stays failed.
pub proof fn lemma_fold_fragments_err(
    block: Seq<u8>,
    size: int,
    base: int,
    count: nat,
    e: DecodeError,
)
    ensures
        fold_fragments_model(Err(e), block, size, base, count) == Err::<SparseModel, DecodeError>(
            e,
        ),
    decreases count,
{
}


/// Apply the fragment descriptor at `base` of a header or extension block
/// to the builder: exactly `fragment_step_model` on the builder's model.
pub fn apply_fragment(b: &mut SparseBuilder, block: &[u8], base: usize) -> (r: Result<
    (),
    DecodeError,
>)
    requires
        old(b).wf(),
        base + 24 <= block@.len(),
    ensures
        final(b).wf(),
        final(b).size == old(b).size,
        (match fragment_step_model(
            Ok(model_of(*old(b))),
            block@,
            old(b).size as int,
            base as int,
        ) {
            Ok(m) => r is Ok && model_of(*final(b)) == m,
            Err(e) => r == Err::<(), DecodeError>(e) && *final(b) == *old(b),
        }),
{
    if fragment_empty(block, base) {
        return Ok(());
    }
    let (off, len) = match read_fragment(block, base) {
        Ok(v) => v,
        Err(e) => {
            return Err(e);
        }
    };
    let ghost m0 = model_of(*b);
    match b.add_fragment(off, len) {
        Ok(()) => {
            proof {
                let stepped = add_fragment_model(m0, b.size as int, off as int, len as int);
                assert(stepped is Ok);
                let m = stepped->Ok_0;
                assert(model_of(*b).segments =~= m.segments);
                assert(model_of(*b) == m);
            }
            Ok(())
        }
        Err(e) => Err(e),
    }
}

/// The content of an entry that is not sparse: one data segment of its
/// whole declared size.
pub fn single_data_segment(len: u64) -> (v: Vec<Segment>)
    ensures
        v@ == seq![Segment::Data { len }],
        segs_total(v@) == len as int,
        segs_data_total(v@) == len as int,
{
    let mut v: Vec<Segment> = Vec::new();
    v.push(Segment::Data { len });
    proof {
        assert(v@.drop_last() =~= Seq::<Segment>::empty());
        assert(segs_total(Seq::<Segment>::empty()) == 0);
        assert(segs_data_total(Seq::<Segment>::empty()) == 0);
        assert(v@ =~= seq![Segment::Data { len }]);
    }
    v
}

/// Reconstructs the logical content of a GNU sparse entry from its ordered
/// fragment descriptors.
///
/// `cursor` is the next expected logical offset, `remaining` what is left of
/// the declared physical size. Each accepted fragment appends a zero-fill
/// segment for the hole before it (if any) and a data segment for its own
/// bytes.
#[derive(Debug)]
pub struct SparseBuilder {
    pub segments: Vec<Segment>,
    pub cursor: u64,
    pub remaining: u64,
    pub size: u64,
}

impl SparseBuilder {
    pub open spec fn wf(&self) -> bool {
        &&& self.remaining <= self.size
        &&& segs_total(self.segments@) == self.cursor as int
        &&& segs_data_total(self.segments@) == self.size - self.remaining
    }

    /// Start reconstruction for an entry whose declared physical size is
    /// `size`.
    pub fn new(size: u64) -> (b: SparseBuilder)
        ensures
            b.wf(),
            b.cursor == 0,
            b.remaining == size,
            b.size == size,
            b.segments@ == Seq::<Segment>::empty(),
    {
        SparseBuilder { segments: Vec::new(), cursor: 0, remaining: size, size }
    }

    /// Account for one non-empty fragment descriptor `(off, len)`.
    ///
    /// Fails exactly when the fragment breaks one of the ordering, alignment
    /// or accounting rules; a failed call leaves the builder unchanged.
    pub fn add_fragment(&mut self, off: u64, len: u64) -> (r: Result<(), DecodeError>)
        requires
            old(self).wf(),
        ensures
            final(self).wf(),
            final(self).size == old(self).size,
            (r == Err::<(), DecodeError>(DecodeError::MisalignedFragment) <==> (old(self).size
                - old(self).remaining) % 512 != 0),
            (r == Err::<(), DecodeError>(DecodeError::OutOfOrderFragment) <==> ((old(self).size
                - old(self).remaining) % 512 == 0 && off < old(self).cursor)),
            (r == Err::<(), DecodeError>(DecodeError::OverrunFragment) <==> ((old(self).size
                - old(self).remaining) % 512 == 0 && off >= old(self).cursor && len > old(self).remaining)),
            (r == Err::<(), DecodeError>(DecodeError::OffsetOverflow) <==> ((old(self).size - old(self).remaining) % 512 == 0 && off >= old(self).cursor && len <= old(self).remaining && off
                + len > u64::MAX)),
            (r is Ok <==> ((old(self).size - old(self).remaining) % 512 == 0 && off >= old(self).cursor && len <= old(self).remaining && off + len <= u64::MAX)),
            r is Err ==> *final(self) == *old(self),
            r is Ok ==> {
                &&& final(self).cursor == off + len
                &&& final(self).remaining == old(self).remaining - len
                &&& final(self).segments@ == old(self).segments@ + (if off > old(self).cursor {
                    seq![Segment::Zero { len: (off - old(self).cursor) as u64 }]
                } else {
                    Seq::<Segment>::empty()
                }) + seq![Segment::Data { len }]
            },
    {
        let consumed = self.size - self.remaining;
        if consumed % 512 != 0 {
            return Err(DecodeError::MisalignedFragment);
        }
        if off < self.cursor {
            return Err(DecodeError::OutOfOrderFragment);
        }
        if len > self.remaining {
            return Err(DecodeError::OverrunFragment);
        }
        if off > u64::MAX - len {
            return Err(DecodeError::OffsetOverflow);
        }
        let ghost segs0 = self.segments@;
        if off > self.cursor {
            let hole = off - self.cursor;
            self.segments.push(Segment::Zero { len: hole });
            proof {
                assert(self.segments@.drop_last() =~= segs0);
                assert(segs_total(self.segments@) == segs_total(segs0) + hole);
                assert(segs_data_total(self.segments@) == segs_data_total(segs0));
            }
        }
        let ghost segs1 = self.segments@;
        let ghost total1 = segs_total(segs1);
        let ghost data1 = segs_data_total(segs1);
        self.segments.push(Segment::Data { len });
        proof {
            assert(self.segments@.drop_last() =~= segs1);
            assert(segs_total(self.segments@) == total1 + len);
            assert(segs_data_total(self.segments@) == data1 + len);
        }
        self.cursor = off + len;
        self.remaining = self.remaining - len;
        proof {
            assert(self.segments@ =~= old(self).segments@ + (if off > old(self).cursor {
                seq![Segment::Zero { len: (off - old(self).cursor) as u64 }]
            } else {
                Seq::<Segment>::empty()
            }) + seq![Segment::Data { len }]);
        }
        Ok(())
    }

    /// Check the final accounting against the header's declared logical
    /// size and hand out the finished segment list.
    ///
    /// Succeeds exactly when the fragments reached `real_size` and consumed
    /// the whole declared physical size.
    pub fn finish(self, real_size: u64) -> (r: Result<Vec<Segment>, DecodeError>)
        requires
            self.wf(),
        ensures
            (self.cursor == real_size && self.remaining == 0) ==> (r matches Ok(segs)
                && segs@ == self.segments@
                && segs_total(segs@) == real_size as int
                && segs_data_total(segs@) == self.size as int),
            !(self.cursor == real_size && self.remaining == 0) ==> r == Err::<
                Vec<Segment>,
                DecodeError,
            >(DecodeError::SparseSizeMismatch),
    {
        if self.cursor != real_size {
            return Err(DecodeError::SparseSizeMismatch);
        }
        if self.remaining > 0 {
            return Err(DecodeError::SparseSizeMismatch);
        }
        Ok(self.segments)
    }
}

}
