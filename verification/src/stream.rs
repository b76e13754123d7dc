use vstd::prelude::*;
use crate::config::DecodeConfig;
use crate::error::DecodeError;
use crate::fill::{append_bytes, BlockFill};
use crate::header::{spec_is_gnu, spec_is_recognized, Header,
    BLOCK_SIZE, TYPE_GNU_LONGLINK, TYPE_GNU_LONGNAME, TYPE_GNU_SPARSE, TYPE_PAX_LOCAL};
use crate::octal::spec_parse_octal;
use crate::raw::{completed_block, raw_eof_spec, raw_step_spec, RawDecoder,
    RawEntry, RawPhase, RawStep};
use crate::sparse::{fold_fragments_model, model_of, segs_total, Segment,
    SparseBuilder, SparseModel};

verus! {

/// The three kinds of continuation record: each carries overflow data for
/// the entry that follows instead of being an entry itself.
#[derive(Clone, Copy, PartialEq, Eq, Structural, Debug)]
pub enum ContKind {
    LongName,
    LongLink,
    Pax,
}

/// Which continuation kind a header record announces, if any. Only records
/// in a recognized (GNU or ustar) layout are treated as continuations.
pub open spec fn spec_continuation(s: Seq<u8>) -> Option<ContKind> {
    if spec_is_recognized(s) && s[156] == TYPE_GNU_LONGNAME {
        Some(ContKind::LongName)
    } else if spec_is_recognized(s) && s[156] == TYPE_GNU_LONGLINK {
        Some(ContKind::LongLink)
    } else if spec_is_recognized(s) && s[156] == TYPE_PAX_LOCAL {
        Some(ContKind::Pax)
    } else {
        None
    }
}

/// A fully resolved archive member: its header, its absolute positions, its
/// resolved logical size, the segments of its logical content stream, and
/// the continuation payloads that described it.
#[derive(Debug)]
pub struct LogicalEntry {
    pub header: Header,
    /// Absolute position of the header record in the stream.
    pub header_pos: u64,
    /// Absolute position of the first content byte.
    pub file_pos: u64,
    /// Resolved logical content size (the sparse real size where
    /// applicable).
    pub size: u64,
    /// The logical content stream, in order. Its lengths sum to `size`.
    pub segments: Vec<Segment>,
    /// Payload of a GNU long-name record that described this entry.
    pub long_pathname: Option<Vec<u8>>,
    /// Payload of a GNU long-link record that described this entry.
    pub long_linkname: Option<Vec<u8>>,
    /// Payload of a PAX local-extensions record that described this entry.
    pub pax_extensions: Option<Vec<u8>>,
    pub unpack_xattrs: bool,
    pub preserve_permissions: bool,
    pub preserve_mtime: bool,
}

impl LogicalEntry {
    pub open spec fn wf(&self) -> bool {
        &&& self.header.wf()
        &&& segs_total(self.segments@) == self.size as int
    }

    /// Whether this entry is a directory.
    pub fn is_dir(&self) -> (r: bool)
        requires
            self.wf(),
        ensures
            r == (self.spec_type_tag() == crate::header::TYPE_DIRECTORY),
    {
        self.header.typeflag() == crate::header::TYPE_DIRECTORY
    }

    /// The entry-type tag, for specifications.
    pub open spec fn spec_type_tag(&self) -> u8 {
        self.header.bytes@[156]
    }
}

/// What one feeding of the entry stream produced.
#[derive(Debug)]
pub enum StreamStep {
    /// Read up to `max` further bytes and feed them in.
    NeedBytes { max: u64 },
    /// The next fully resolved entry.
    Entry { entry: LogicalEntry },
    /// End of archive. Terminal: later pulls answer `End` again.
    End,
}

/// Where the entry stream stands between two feedings.
#[derive(Debug)]
pub enum StreamPhase {
    /// Driving the raw decoder toward the next header record.
    Ready,
    /// Draining a continuation record's payload into a buffer.
    Drain { kind: ContKind, buf: Vec<u8>, remaining: u64 },
    /// Filling chained extended sparse header blocks for `pending`.
    ExtSparse {
        pending: LogicalEntry,
        builder: SparseBuilder,
        fill: BlockFill,
        real_size: u64,
    },
}

/// The decoder of the logical entry sequence.
///
/// It drives the raw decoder, absorbs continuation records into pending
/// buffers, attaches them to the next ordinary entry, and resolves GNU
/// sparse fragment lists into content segments. The caller feeds byte
/// chunks to `step`, reports end of source through `step_eof`, and reports
/// content bytes it read for itself through `note_read`.
#[derive(Debug)]
pub struct EntryDecoder {
    pub raw: RawDecoder,
    pub cfg: DecodeConfig,
    pub longname: Option<Vec<u8>>,
    pub longlink: Option<Vec<u8>>,
    pub pax: Option<Vec<u8>>,
    pub failed: bool,
    pub phase: StreamPhase,
}

/// The pending continuation buffer of one kind, as a byte sequence.
pub open spec fn buffer_of(d: EntryDecoder, k: ContKind) -> Option<Seq<u8>> {
    match k {
        ContKind::LongName => match d.longname {
            Some(v) => Some(v@),
            None => None,
        },
        ContKind::LongLink => match d.longlink {
            Some(v) => Some(v@),
            None => None,
        },
        ContKind::Pax => match d.pax {
            Some(v) => Some(v@),
            None => None,
        },
    }
}

/// An entry's carried-through flags match the stream's configuration.
pub open spec fn entry_flags_match(e: LogicalEntry, cfg: DecodeConfig) -> bool {
    &&& e.unpack_xattrs == cfg.unpack_xattrs
    &&& e.preserve_permissions == cfg.preserve_permissions
    &&& e.preserve_mtime == cfg.preserve_mtime
}

/// How classification handles one raw entry, from a `pre` state whose raw
/// decoder has already consumed the record: a continuation record is
/// absorbed (or refused as a duplicate) and never yielded; an ordinary
/// record becomes the entry the pending buffers describe; a GNU sparse
/// record additionally has its fragment list resolved.
pub open spec fn classify_spec(
    pre: EntryDecoder,
    entry: RawEntry,
    post: EntryDecoder,
    r: Result<StreamStep, DecodeError>,
) -> bool {
    let s = entry.header.bytes@;
    match spec_continuation(s) {
        Some(k) => if buffer_of(pre, k) is Some {
            // A second continuation of one kind before an entry consumed
            // the first: the archive is malformed.
            r == Err::<StreamStep, DecodeError>(DecodeError::DuplicateContinuation)
        } else if entry.size == 0 {
            &&& (r matches Ok(StreamStep::NeedBytes { .. }) || r == Err::<
                StreamStep,
                DecodeError,
            >(DecodeError::OffsetOverflow))
            &&& (r is Ok ==> buffer_of(post, k) == Some(Seq::<u8>::empty())
                && unrelated_buffers_kept(pre, post, k) && post.phase is Ready && post.cfg
                == pre.cfg)
        } else {
            &&& r == Ok::<StreamStep, DecodeError>(StreamStep::NeedBytes { max: entry.size })
            &&& (post.phase matches StreamPhase::Drain { kind, buf, remaining } && kind == k
                && buf@ == Seq::<u8>::empty() && remaining == entry.size)
            &&& post.longname == pre.longname
            &&& post.longlink == pre.longlink
            &&& post.pax == pre.pax
            &&& post.raw == pre.raw
            &&& post.cfg == pre.cfg
        },
        None => if spec_is_gnu(s) && s[156] == TYPE_GNU_SPARSE {
            sparse_classify_spec(entry, pre.longname, pre.longlink, pre.pax, pre.cfg, post, r)
        } else {
            // An ordinary entry: one data segment, the pending buffers
            // attached and cleared.
            &&& (r matches Ok(StreamStep::Entry { entry: le }) && le.header == entry.header
                && le.header_pos == entry.header_pos && le.file_pos == entry.file_pos && le.size
                == entry.size && le.segments@ == seq![Segment::Data { len: entry.size }]
                && le.long_pathname == pre.longname && le.long_linkname == pre.longlink
                && le.pax_extensions == pre.pax && entry_flags_match(le, pre.cfg))
            &&& post.phase is Ready
            &&& post.raw == pre.raw
            &&& post.cfg == pre.cfg
        },
    }
}

/// The errors the sparse fragment rules can raise.
pub open spec fn sparse_error(r: Result<StreamStep, DecodeError>) -> bool {
    ||| r == Err::<StreamStep, DecodeError>(DecodeError::MisalignedFragment)
    ||| r == Err::<StreamStep, DecodeError>(DecodeError::OutOfOrderFragment)
    ||| r == Err::<StreamStep, DecodeError>(DecodeError::OverrunFragment)
    ||| r == Err::<StreamStep, DecodeError>(DecodeError::OffsetOverflow)
    ||| r == Err::<StreamStep, DecodeError>(DecodeError::SparseSizeMismatch)
    ||| r == Err::<StreamStep, DecodeError>(DecodeError::InvalidNumericField)
}

/// How a GNU sparse entry is resolved, given the continuation payloads
/// `lp`, `ll`, `px` that will be attached to it: its real size must parse,
/// its embedded fragments must obey the ordering rules, and either the
/// entry resolves now or chained extension blocks follow.
pub open spec fn sparse_classify_spec(
    entry: RawEntry,
    lp: Option<Vec<u8>>,
    ll: Option<Vec<u8>>,
    px: Option<Vec<u8>>,
    cfg: DecodeConfig,
    post: EntryDecoder,
    r: Result<StreamStep, DecodeError>,
) -> bool {
    let s = entry.header.bytes@;
    match spec_parse_octal(s.subrange(483, 495)) {
        None => r == Err::<StreamStep, DecodeError>(DecodeError::InvalidNumericField),
        Some(real_size) => {
            let start = SparseModel {
                segments: Seq::empty(),
                cursor: 0,
                remaining: entry.size as int,
            };
            let folded = fold_fragments_model(Ok(start), s, entry.size as int, 386, 4);
            &&& (folded matches Err(e) ==> r == Err::<StreamStep, DecodeError>(e))
            &&& (folded matches Ok(m) ==> if s[482] == 0x01 {
                // Chained extension blocks follow.
                (r == Ok::<StreamStep, DecodeError>(StreamStep::NeedBytes {
                    max: BLOCK_SIZE as u64,
                }) && (post.phase matches StreamPhase::ExtSparse {
                    pending,
                    builder,
                    fill,
                    real_size: rs,
                } && pending.header == entry.header && pending.header_pos == entry.header_pos
                    && pending.file_pos == entry.file_pos && pending.long_pathname == lp
                    && pending.long_linkname == ll && pending.pax_extensions == px
                    && entry_flags_match(pending, cfg) && rs == real_size && model_of(builder)
                    == m && builder.size == entry.size && fill.data@ == Seq::<u8>::empty())) || r
                    == Err::<StreamStep, DecodeError>(DecodeError::OffsetOverflow)
            } else if m.cursor == real_size && m.remaining == 0 {
                (r matches Ok(StreamStep::Entry { entry: le }) && le.header == entry.header
                    && le.header_pos == entry.header_pos && le.file_pos == entry.file_pos
                    && le.size == real_size && le.segments@ == m.segments && le.long_pathname
                    == lp && le.long_linkname == ll && le.pax_extensions == px
                    && entry_flags_match(le, cfg) && post.phase is Ready)
            } else {
                r == Err::<StreamStep, DecodeError>(DecodeError::SparseSizeMismatch)
            })
            &&& (r is Err ==> sparse_error(r))
        },
    }
}

/// The two continuation buffers a kind does not name are kept unchanged.
pub open spec fn unrelated_buffers_kept(pre: EntryDecoder, post: EntryDecoder, k: ContKind) -> bool {
    match k {
        ContKind::LongName => post.longlink == pre.longlink && post.pax == pre.pax,
        ContKind::LongLink => post.longname == pre.longname && post.pax == pre.pax,
        ContKind::Pax => post.longname == pre.longname && post.longlink == pre.longlink,
    }
}

/// How one feeding is dispatched from the `Ready` phase, given what the raw
/// decoder made of it.
pub open spec fn ready_dispatch_spec(
    pre: EntryDecoder,
    mid: RawDecoder,
    rr: Result<RawStep, DecodeError>,
    post: EntryDecoder,
    r: Result<StreamStep, DecodeError>,
) -> bool {
    match rr {
        Err(e) => r == Err::<StreamStep, DecodeError>(e),
        Ok(RawStep::NeedBytes { max }) => r == Ok::<StreamStep, DecodeError>(
            StreamStep::NeedBytes { max },
        ) && post == (EntryDecoder { raw: mid, ..pre }),
        Ok(RawStep::End) => r == Ok::<StreamStep, DecodeError>(StreamStep::End) && post == (
        EntryDecoder { raw: mid, ..pre }),
        Ok(RawStep::Entry { entry }) => classify_spec(
            EntryDecoder { raw: mid, ..pre },
            entry,
            post,
            r,
        ),
    }
}

impl EntryDecoder {
    pub open spec fn wf(&self) -> bool {
        &&& self.raw.ignore_zeros == self.cfg.ignore_zeros
        &&& (self.failed || !self.raw.failed)
        &&& match self.phase {
            StreamPhase::Ready => self.raw.wf(),
            StreamPhase::Drain { kind, buf, remaining } => {
                &&& self.raw.wf()
                &&& self.raw.phase is Idle
                &&& 1 <= remaining
                &&& self.raw.pos + remaining <= self.raw.next
            },
            StreamPhase::ExtSparse { pending, builder, fill, real_size } => {
                &&& self.raw.phase is Idle
                &&& fill.wf()
                &&& builder.wf()
                &&& pending.header.wf()
                &&& spec_continuation(pending.header.bytes@) is None
                &&& entry_flags_match(pending, self.cfg)
                &&& self.raw.pos <= self.raw.next + fill.spec_filled()
                &&& self.raw.next + BLOCK_SIZE <= u64::MAX
                &&& self.longname is None
                &&& self.longlink is None
                &&& self.pax is None
            },
        }
    }

    /// How many bytes the decoder can accept in the next feeding.
    pub open spec fn can_accept(&self) -> int {
        match self.phase {
            StreamPhase::Ready => self.raw.can_accept(),
            StreamPhase::Drain { kind, buf, remaining } => remaining as int,
            StreamPhase::ExtSparse { pending, builder, fill, real_size } => BLOCK_SIZE
                - fill.spec_filled(),
        }
    }

    /// Begin decoding the logical entry sequence of a source whose read
    /// position is `pos`.
    ///
    /// Fails with `NotAtStart` exactly when the source is not at position 0.
    pub fn new(cfg: DecodeConfig, pos: u64) -> (r: Result<EntryDecoder, DecodeError>)
        ensures
            pos == 0 ==> (r matches Ok(d) && d.wf() && !d.failed && d.cfg == cfg && d.phase
                is Ready && d.raw.phase is Idle && d.raw.pos == 0 && d.raw.next == 0 && d.longname
                is None && d.longlink is None && d.pax is None),
            pos != 0 ==> r == Err::<EntryDecoder, DecodeError>(DecodeError::NotAtStart),
    {
        let raw = match RawDecoder::new(cfg.ignore_zeros, pos) {
            Ok(d) => d,
            Err(e) => {
                return Err(e);
            }
        };
        Ok(
            EntryDecoder {
                raw,
                cfg,
                longname: None,
                longlink: None,
                pax: None,
                failed: false,
                phase: StreamPhase::Ready,
            },
        )
    }

    /// Account for `n` content bytes the consumer read from the source for
    /// itself, between records.
    pub fn note_read(&mut self, n: u64)
        requires
            old(self).wf(),
            old(self).phase is Ready,
            old(self).raw.phase is Idle,
            old(self).raw.pos + n <= old(self).raw.next,
        ensures
            final(self).wf(),
            *final(self) == (EntryDecoder {
                raw: (RawDecoder { pos: (old(self).raw.pos + n) as u64, ..old(self).raw }),
                ..*old(self)
            }),
    {
        self.raw.note_read(n);
    }

    /// Feed the bytes one read delivered (an empty chunk merely asks what
    /// is needed next).
    #[verifier::loop_isolation(false)]
    #[verifier::rlimit(80)]
    pub fn step(&mut self, chunk: &[u8]) -> (r: Result<StreamStep, DecodeError>)
        requires
            old(self).wf(),
            !old(self).failed,
            chunk@.len() <= old(self).can_accept() || (old(self).phase is Ready && old(self).raw.phase is Idle),
            (old(self).phase is Ready && old(self).raw.phase is Idle) ==> chunk@.len() == 0,
        ensures
            r is Ok ==> final(self).wf() && !final(self).failed,
            r is Err ==> final(self).failed,
            final(self).cfg == old(self).cfg,
            // A yielded entry is well formed, is never a continuation
            // record, and leaves no pending buffer behind.
            (r matches Ok(StreamStep::Entry { entry }) ==> entry.wf() && entry_flags_match(
                entry,
                old(self).cfg,
            ) && spec_continuation(entry.header.bytes@) is None && final(self).longname is None
                && final(self).longlink is None && final(self).pax is None && final(self).phase
                is Ready),
            // End of archive is terminal and idempotent.
            r == Ok::<StreamStep, DecodeError>(StreamStep::End) ==> final(self).phase is Ready
                && final(self).raw.phase is Done,
            (old(self).phase is Ready && old(self).raw.phase is Done) ==> r == Ok::<
                StreamStep,
                DecodeError,
            >(StreamStep::End) && *final(self) == *old(self),
            // From `Ready`, the feeding acts as the raw decoder directs.
            old(self).phase is Ready ==> exists|mid: RawDecoder, rr: Result<RawStep, DecodeError>|
                #[trigger] raw_step_spec(old(self).raw, chunk@, mid, rr) && ready_dispatch_spec(
                    *old(self),
                    mid,
                    rr,
                    *final(self),
                    r,
                ),
            // Draining a continuation payload.
            (old(self).phase matches StreamPhase::Drain { kind, buf, remaining }) ==> drain_spec(
                *old(self),
                chunk@,
                *final(self),
                r,
            ),
            // Filling chained extended sparse header blocks.
            (old(self).phase matches StreamPhase::ExtSparse {
                pending,
                builder,
                fill,
                real_size,
            }) ==> ext_sparse_spec(*old(self), chunk@, *final(self), r),
    {
        let mut ph = StreamPhase::Ready;
        core::mem::swap(&mut self.phase, &mut ph);
        match ph {
            StreamPhase::Ready => {
                self.phase = StreamPhase::Ready;
                let ghost pre_raw = self.raw;
                let rr = match self.raw.step(chunk) {
                    Ok(v) => v,
                    Err(e) => {
                        self.failed = true;
                        proof {
                            assert(raw_step_spec(pre_raw, chunk@, self.raw, Err(e))
                                && ready_dispatch_spec(*old(self), self.raw, Err(e), *self, Err(e)));
                        }
                        return Err(e);
                    }
                };
                let ghost mid = self.raw;
                match rr {
                    RawStep::NeedBytes { max } => {
                        proof {
                            assert(raw_step_spec(pre_raw, chunk@, mid, Ok(RawStep::NeedBytes {
                                max,
                            })) && ready_dispatch_spec(*old(self), mid, Ok(RawStep::NeedBytes {
                                max,
                            }), *self, Ok(StreamStep::NeedBytes { max })));
                        }
                        Ok(StreamStep::NeedBytes { max })
                    }
                    RawStep::End => {
                        proof {
                            assert(raw_step_spec(pre_raw, chunk@, mid, Ok(RawStep::End))
                                && ready_dispatch_spec(*old(self), mid, Ok(RawStep::End), *self, Ok(
                                StreamStep::End,
                            )));
                        }
                        Ok(StreamStep::End)
                    }
                    RawStep::Entry { entry } => {
                        proof {
                            match pre_raw.phase {
                                RawPhase::Fill { fill } => {
                                    vstd::arithmetic::div_mod::lemma_fundamental_div_mod(
                                        entry.size + 511,
                                        512,
                                    );
                                    vstd::arithmetic::div_mod::lemma_mod_bound(
                                        entry.size + 511,
                                        512,
                                    );
                                }
                                _ => {
                                    assert(false);
                                }
                            }
                        }
                        let ghost entry_g = entry;
                        let res = self.classify(entry);
                        proof {
                            assert(raw_step_spec(pre_raw, chunk@, mid, Ok(RawStep::Entry {
                                entry: entry_g,
                            })) && ready_dispatch_spec(*old(self), mid, Ok(RawStep::Entry {
                                entry: entry_g,
                            }), *self, res));
                        }
                        res
                    }
                }
            }
            StreamPhase::Drain { kind, mut buf, remaining } => {
                let len = chunk.len() as u64;
                if len == 0 {
                    self.phase = StreamPhase::Drain { kind, buf, remaining };
                    return Ok(StreamStep::NeedBytes { max: remaining });
                }
                append_bytes(&mut buf, chunk);
                self.raw.note_read(len);
                let rem2 = remaining - len;
                if rem2 > 0 {
                    self.phase = StreamPhase::Drain { kind, buf, remaining: rem2 };
                    Ok(StreamStep::NeedBytes { max: rem2 })
                } else {
                    match kind {
                        ContKind::LongName => {
                            self.longname = Some(buf);
                        }
                        ContKind::LongLink => {
                            self.longlink = Some(buf);
                        }
                        ContKind::Pax => {
                            self.pax = Some(buf);
                        }
                    }
                    self.phase = StreamPhase::Ready;
                    self.probe()
                }
            }
            StreamPhase::ExtSparse { pending, mut builder, mut fill, real_size } => {
                let len = chunk.len() as u64;
                let done = fill.accept(chunk);
                self.raw.pos = self.raw.pos + len;
                if !done {
                    let need = fill.needed();
                    self.phase = StreamPhase::ExtSparse { pending, builder, fill, real_size };
                    return Ok(StreamStep::NeedBytes { max: need as u64 });
                }
                let block = fill.data;
                self.raw.next = self.raw.next + (BLOCK_SIZE as u64);
                self.ext_block(pending, builder, block, real_size)
            }
        }
    }

    /// Report that the source ended (a read delivered no bytes at all).
    pub fn step_eof(&mut self) -> (r: Result<StreamStep, DecodeError>)
        requires
            old(self).wf(),
            !old(self).failed,
        ensures
            r is Ok ==> final(self).wf() && !final(self).failed,
            r is Err ==> final(self).failed,
            final(self).cfg == old(self).cfg,
            r is Ok ==> r == Ok::<StreamStep, DecodeError>(StreamStep::End),
            r == Ok::<StreamStep, DecodeError>(StreamStep::End) ==> final(self).phase is Ready
                && final(self).raw.phase is Done,
            (old(self).phase is Ready && old(self).raw.phase is Done) ==> r == Ok::<
                StreamStep,
                DecodeError,
            >(StreamStep::End) && *final(self) == *old(self),
            old(self).phase is Ready ==> exists|mid: RawDecoder, rr: Result<RawStep, DecodeError>|
                #[trigger] raw_eof_spec(old(self).raw, mid, rr) && (rr matches Ok(RawStep::End)
                    ==> r == Ok::<StreamStep, DecodeError>(StreamStep::End)) && (rr matches Err(e)
                    ==> r == Err::<StreamStep, DecodeError>(e)),
            !(old(self).phase is Ready) ==> r == Err::<StreamStep, DecodeError>(
                DecodeError::UnexpectedEnd,
            ),
    {
        let mut ph = StreamPhase::Ready;
        core::mem::swap(&mut self.phase, &mut ph);
        match ph {
            StreamPhase::Ready => {
                self.phase = StreamPhase::Ready;
                let ghost pre_raw = self.raw;
                match self.raw.step_eof() {
                    Ok(v) => {
                        proof {
                            assert(raw_eof_spec(pre_raw, self.raw, Ok(v)));
                        }
                        match v {
                            RawStep::End => Ok(StreamStep::End),
                            _ => {
                                proof {
                                    assert(false);
                                }
                                Ok(StreamStep::End)
                            }
                        }
                    }
                    Err(e) => {
                        self.failed = true;
                        proof {
                            assert(raw_eof_spec(pre_raw, self.raw, Err::<RawStep, DecodeError>(e)));
                        }
                        Err(e)
                    }
                }
            }
            StreamPhase::Drain { .. } => {
                self.failed = true;
                Err(DecodeError::UnexpectedEnd)
            }
            StreamPhase::ExtSparse { .. } => {
                self.failed = true;
                Err(DecodeError::UnexpectedEnd)
            }
        }
    }

    /// Ask the raw decoder what is needed next, consuming nothing.
    fn probe(&mut self) -> (r: Result<StreamStep, DecodeError>)
        requires
            old(self).phase is Ready,
            old(self).raw.wf(),
            old(self).raw.phase is Idle,
            !old(self).failed,
            !old(self).raw.failed,
        ensures
            r is Ok ==> final(self).raw.wf() && !final(self).failed && (r matches Ok(
                StreamStep::NeedBytes { .. },
            )),
            old(self).raw.pos < old(self).raw.next ==> r == Ok::<StreamStep, DecodeError>(
                StreamStep::NeedBytes { max: (old(self).raw.next - old(self).raw.pos) as u64 },
            ),
            r is Err ==> final(self).failed && r == Err::<StreamStep, DecodeError>(
                DecodeError::OffsetOverflow,
            ),
            final(self).phase == old(self).phase,
            final(self).cfg == old(self).cfg,
            final(self).longname == old(self).longname,
            final(self).longlink == old(self).longlink,
            final(self).pax == old(self).pax,
            r is Ok ==> final(self).raw.ignore_zeros == old(self).raw.ignore_zeros,
            r is Ok ==> !(final(self).raw.phase is Done) && !final(self).raw.failed,
    {
        let empty: [u8; 0] = [];
        match self.raw.step(&empty) {
            Ok(RawStep::NeedBytes { max }) => Ok(StreamStep::NeedBytes { max }),
            Ok(_) => {
                proof {
                    assert(false);
                }
                Err(DecodeError::OffsetOverflow)
            }
            Err(e) => {
                self.failed = true;
                Err(e)
            }
        }
    }

    /// Decide what one raw entry means: absorb a continuation record, or
    /// resolve and yield an ordinary one.
    #[verifier::loop_isolation(false)]
    #[verifier::rlimit(80)]
    fn classify(&mut self, entry: RawEntry) -> (r: Result<StreamStep, DecodeError>)
        requires
            old(self).wf(),
            old(self).phase is Ready,
            old(self).raw.phase is Idle,
            !old(self).failed,
            entry.wf(),
            old(self).raw.pos + entry.size <= old(self).raw.next,
        ensures
            classify_spec(*old(self), entry, *final(self), r),
            r is Ok ==> final(self).wf() && !final(self).failed,
            r is Err ==> final(self).failed,
            final(self).cfg == old(self).cfg,
            (r matches Ok(StreamStep::Entry { entry: le }) ==> le.wf() && final(self).longname
                is None && final(self).longlink is None && final(self).pax is None && final(self).phase is Ready),
            !(r matches Ok(StreamStep::End)),
    {
        let recognized = entry.header.is_recognized();
        let tf = entry.header.typeflag();
        if recognized && (tf == TYPE_GNU_LONGNAME || tf == TYPE_GNU_LONGLINK || tf
            == TYPE_PAX_LOCAL) {
            let occupied = if tf == TYPE_GNU_LONGNAME {
                self.longname.is_some()
            } else if tf == TYPE_GNU_LONGLINK {
                self.longlink.is_some()
            } else {
                self.pax.is_some()
            };
            if occupied {
                self.failed = true;
                return Err(DecodeError::DuplicateContinuation);
            }
            if entry.size == 0 {
                if tf == TYPE_GNU_LONGNAME {
                    self.longname = Some(Vec::new());
                } else if tf == TYPE_GNU_LONGLINK {
                    self.longlink = Some(Vec::new());
                } else {
                    self.pax = Some(Vec::new());
                }
                return self.probe();
            }
            let kind = if tf == TYPE_GNU_LONGNAME {
                ContKind::LongName
            } else if tf == TYPE_GNU_LONGLINK {
                ContKind::LongLink
            } else {
                ContKind::Pax
            };
            self.phase = StreamPhase::Drain { kind, buf: Vec::new(), remaining: entry.size };
            return Ok(StreamStep::NeedBytes { max: entry.size });
        }

        // An ordinary entry: attach whatever the continuation records left.
        let long_pathname = self.longname.take();
        let long_linkname = self.longlink.take();
        let pax_extensions = self.pax.take();

        let sparse = entry.header.is_gnu() && tf == TYPE_GNU_SPARSE;
        if !sparse {
            let size = entry.size;
            let segments: Vec<Segment> = crate::sparse::single_data_segment(size);
            let le = LogicalEntry {
                header: entry.header,
                header_pos: entry.header_pos,
                file_pos: entry.file_pos,
                size,
                segments,
                long_pathname,
                long_linkname,
                pax_extensions,
                unpack_xattrs: self.cfg.unpack_xattrs,
                preserve_permissions: self.cfg.preserve_permissions,
                preserve_mtime: self.cfg.preserve_mtime,
            };
            return Ok(StreamStep::Entry { entry: le });
        }

        // A GNU sparse entry: resolve its fragment list.
        self.classify_sparse(entry, long_pathname, long_linkname, pax_extensions)
    }

    /// Resolve a GNU sparse entry's embedded fragment list, with the
    /// continuation payloads that will be attached to it.
    #[verifier::loop_isolation(false)]
    #[verifier::rlimit(80)]
    fn classify_sparse(
        &mut self,
        entry: RawEntry,
        long_pathname: Option<Vec<u8>>,
        long_linkname: Option<Vec<u8>>,
        pax_extensions: Option<Vec<u8>>,
    ) -> (r: Result<StreamStep, DecodeError>)
        requires
            old(self).wf(),
            old(self).phase is Ready,
            old(self).raw.phase is Idle,
            !old(self).failed,
            entry.wf(),
            old(self).longname is None,
            old(self).longlink is None,
            old(self).pax is None,
            spec_is_gnu(entry.header.bytes@),
            entry.header.bytes@[156] == TYPE_GNU_SPARSE,
            spec_continuation(entry.header.bytes@) is None,
        ensures
            sparse_classify_spec(
                entry,
                long_pathname,
                long_linkname,
                pax_extensions,
                old(self).cfg,
                *final(self),
                r,
            ),
            r is Ok ==> final(self).wf() && !final(self).failed,
            r is Err ==> final(self).failed,
            final(self).cfg == old(self).cfg,
            final(self).longname == old(self).longname,
            final(self).longlink == old(self).longlink,
            final(self).pax == old(self).pax,
            (r matches Ok(StreamStep::Entry { entry: le }) ==> le.wf() && final(self).phase
                is Ready),
            !(r matches Ok(StreamStep::End)),
    {
        let real_size = match entry.header.gnu_real_size() {
            Ok(v) => v,
            Err(e) => {
                self.failed = true;
                return Err(e);
            }
        };
        let mut builder = SparseBuilder::new(entry.size);
        let ghost snap = *self;
        let ghost sb = entry.header.bytes@;
        let ghost size_i = entry.size as int;
        let ghost start = (SparseModel {
            segments: Seq::empty(),
            cursor: 0,
            remaining: entry.size as int,
        });
        let mut k: usize = 0;
        while k < 4
            invariant
                0 <= k <= 4,
                builder.wf(),
                builder.size == entry.size,
                *self == snap,
                fold_fragments_model(Ok(start), sb, size_i, 386, k as nat) == Ok::<
                    SparseModel,
                    DecodeError,
                >(model_of(builder)),
            decreases 4 - k,
        {
            let base = 386 + 24 * k;
            let ghost mpre = model_of(builder);
            proof {
                crate::sparse::lemma_fold_fragments_split(Ok(start), sb, size_i, 386, k as nat, 1);
                reveal_with_fuel(crate::sparse::fold_fragments_model, 3);
                assert(fold_fragments_model(Ok(mpre), sb, size_i, base as int, 1)
                    == crate::sparse::fragment_step_model(Ok(mpre), sb, size_i, base as int));
            }
            match crate::sparse::apply_fragment(&mut builder, entry.header.bytes.as_slice(), base) {
                Ok(()) => {}
                Err(e) => {
                    proof {
                        crate::sparse::lemma_fold_fragments_split(
                            Ok(start),
                            sb,
                            size_i,
                            386,
                            (k + 1) as nat,
                            (3 - k) as nat,
                        );
                        crate::sparse::lemma_fold_fragments_err(
                            sb,
                            size_i,
                            386 + 24 * (k as int + 1),
                            (3 - k) as nat,
                            e,
                        );
                    }
                    self.failed = true;
                    return Err(e);
                }
            }
            k += 1;
        }
        if entry.header.gnu_is_extended() {
            if self.raw.next > u64::MAX - (BLOCK_SIZE as u64) {
                self.failed = true;
                return Err(DecodeError::OffsetOverflow);
            }
            let pending = LogicalEntry {
                header: entry.header,
                header_pos: entry.header_pos,
                file_pos: entry.file_pos,
                size: entry.size,
                segments: Vec::new(),
                long_pathname,
                long_linkname,
                pax_extensions,
                unpack_xattrs: self.cfg.unpack_xattrs,
                preserve_permissions: self.cfg.preserve_permissions,
                preserve_mtime: self.cfg.preserve_mtime,
            };
            self.phase = StreamPhase::ExtSparse {
                pending,
                builder,
                fill: BlockFill::new(),
                real_size,
            };
            return Ok(StreamStep::NeedBytes { max: BLOCK_SIZE as u64 });
        }
        let segs = match builder.finish(real_size) {
            Ok(v) => v,
            Err(e) => {
                self.failed = true;
                return Err(e);
            }
        };
        let le = LogicalEntry {
            header: entry.header,
            header_pos: entry.header_pos,
            file_pos: entry.file_pos,
            size: real_size,
            segments: segs,
            long_pathname,
            long_linkname,
            pax_extensions,
            unpack_xattrs: self.cfg.unpack_xattrs,
            preserve_permissions: self.cfg.preserve_permissions,
            preserve_mtime: self.cfg.preserve_mtime,
        };
        Ok(StreamStep::Entry { entry: le })
    }

    /// Absorb one completed extended sparse header block.
    #[verifier::loop_isolation(false)]
    #[verifier::rlimit(80)]
    fn ext_block(
        &mut self,
        pending: LogicalEntry,
        builder: SparseBuilder,
        block: Vec<u8>,
        real_size: u64,
    ) -> (r: Result<StreamStep, DecodeError>)
        requires
            old(self).phase is Ready,
            old(self).raw.phase is Idle,
            !old(self).failed,
            !old(self).raw.failed,
            block@.len() == BLOCK_SIZE,
            builder.wf(),
            pending.header.wf(),
            spec_continuation(pending.header.bytes@) is None,
            entry_flags_match(pending, old(self).cfg),
            old(self).longname is None,
            old(self).longlink is None,
            old(self).pax is None,
            old(self).raw.ignore_zeros == old(self).cfg.ignore_zeros,
            old(self).raw.pos <= old(self).raw.next,
        ensures
            ext_block_spec(pending, builder, block@, real_size, old(self).cfg, *final(self), r),
            final(self).raw == old(self).raw,
            r is Ok ==> final(self).wf() && !final(self).failed,
            r is Err ==> final(self).failed,
            final(self).cfg == old(self).cfg,
            final(self).longname == old(self).longname,
            final(self).longlink == old(self).longlink,
            final(self).pax == old(self).pax,
            (r matches Ok(StreamStep::Entry { entry: le }) ==> le.wf() && final(self).phase
                is Ready),
            !(r matches Ok(StreamStep::End)),
    {
        let ghost start = model_of(builder);
        let ghost sb = block@;
        let ghost size_i = builder.size as int;
        let mut builder = builder;
        let ghost snap = *self;
        let mut k: usize = 0;
        while k < 21
            invariant
                0 <= k <= 21,
                builder.wf(),
                builder.size as int == size_i,
                *self == snap,
                fold_fragments_model(Ok(start), sb, size_i, 0, k as nat) == Ok::<
                    SparseModel,
                    DecodeError,
                >(model_of(builder)),
            decreases 21 - k,
        {
            let base = 24 * k;
            let ghost mpre = model_of(builder);
            proof {
                crate::sparse::lemma_fold_fragments_split(Ok(start), sb, size_i, 0, k as nat, 1);
                reveal_with_fuel(crate::sparse::fold_fragments_model, 3);
                assert(fold_fragments_model(Ok(mpre), sb, size_i, base as int, 1)
                    == crate::sparse::fragment_step_model(Ok(mpre), sb, size_i, base as int));
            }
            match crate::sparse::apply_fragment(&mut builder, block.as_slice(), base) {
                Ok(()) => {}
                Err(e) => {
                    proof {
                        crate::sparse::lemma_fold_fragments_split(
                            Ok(start),
                            sb,
                            size_i,
                            0,
                            (k + 1) as nat,
                            (20 - k) as nat,
                        );
                        crate::sparse::lemma_fold_fragments_err(
                            sb,
                            size_i,
                            24 * (k as int + 1),
                            (20 - k) as nat,
                            e,
                        );
                    }
                    self.failed = true;
                    return Err(e);
                }
            }
            k += 1;
        }
        if block[504] == 0x01 {
            if self.raw.next > u64::MAX - (BLOCK_SIZE as u64) {
                self.failed = true;
                return Err(DecodeError::OffsetOverflow);
            }
            self.phase = StreamPhase::ExtSparse {
                pending,
                builder,
                fill: BlockFill::new(),
                real_size,
            };
            return Ok(StreamStep::NeedBytes { max: BLOCK_SIZE as u64 });
        }
        let segs = match builder.finish(real_size) {
            Ok(v) => v,
            Err(e) => {
                self.failed = true;
                return Err(e);
            }
        };
        let mut le = pending;
        le.size = real_size;
        le.segments = segs;
        self.phase = StreamPhase::Ready;
        Ok(StreamStep::Entry { entry: le })
    }
}

/// Draining a continuation payload: each feeding appends to the buffer and
/// consumes source bytes one for one; the completed buffer becomes the
/// pending payload of its kind.
pub open spec fn drain_spec(
    pre: EntryDecoder,
    chunk: Seq<u8>,
    post: EntryDecoder,
    r: Result<StreamStep, DecodeError>,
) -> bool {
    match pre.phase {
        StreamPhase::Drain { kind, buf, remaining } => if chunk.len() == 0 {
            r == Ok::<StreamStep, DecodeError>(StreamStep::NeedBytes { max: remaining }) && post
                == pre
        } else if chunk.len() < remaining {
            &&& r == Ok::<StreamStep, DecodeError>(StreamStep::NeedBytes {
                max: (remaining - chunk.len()) as u64,
            })
            &&& (post.phase matches StreamPhase::Drain { kind: k2, buf: b2, remaining: rem2 } && k2
                == kind && b2@ == buf@ + chunk && rem2 == remaining - chunk.len())
            &&& post.raw == (RawDecoder { pos: (pre.raw.pos + chunk.len()) as u64, ..pre.raw })
            &&& post.longname == pre.longname
            &&& post.longlink == pre.longlink
            &&& post.pax == pre.pax
            &&& post.cfg == pre.cfg
        } else {
            &&& (r matches Ok(StreamStep::NeedBytes { .. }) || r == Err::<
                StreamStep,
                DecodeError,
            >(DecodeError::OffsetOverflow))
            &&& (r is Ok ==> buffer_of(post, kind) == Some(buf@ + chunk) && post.phase is Ready
                && unrelated_buffers_kept(pre, post, kind) && post.cfg == pre.cfg)
            &&& (pre.raw.pos + chunk.len() < pre.raw.next ==> r == Ok::<
                StreamStep,
                DecodeError,
            >(StreamStep::NeedBytes {
                max: (pre.raw.next - pre.raw.pos - chunk.len()) as u64,
            }))
        },
        _ => true,
    }
}

/// Filling chained extended sparse header blocks: each completed block's
/// fragments extend the builder; the last block (extended flag unset)
/// resolves the pending entry.
pub open spec fn ext_sparse_spec(
    pre: EntryDecoder,
    chunk: Seq<u8>,
    post: EntryDecoder,
    r: Result<StreamStep, DecodeError>,
) -> bool {
    match pre.phase {
        StreamPhase::ExtSparse { pending, builder, fill, real_size } => if fill.spec_filled()
            + chunk.len() < BLOCK_SIZE {
            &&& r == Ok::<StreamStep, DecodeError>(StreamStep::NeedBytes {
                max: (BLOCK_SIZE - fill.spec_filled() - chunk.len()) as u64,
            })
            &&& (post.phase matches StreamPhase::ExtSparse {
                pending: p2,
                builder: b2,
                fill: f2,
                real_size: rs2,
            } && p2 == pending && b2 == builder && f2.data@ == fill.data@ + chunk && rs2
                == real_size)
        } else {
            &&& ext_block_spec(pending, builder, completed_block(fill, chunk), real_size, pre.cfg, post, r)
            &&& post.raw.next == pre.raw.next + BLOCK_SIZE
            &&& post.raw.pos == pre.raw.pos + chunk.len()
        },
        _ => true,
    }
}

/// What one completed extended sparse header block means for the pending
/// entry: its fragments extend the reconstruction; its extended flag decides
/// whether another block follows or the entry resolves now.
pub open spec fn ext_block_spec(
    pending: LogicalEntry,
    builder: SparseBuilder,
    block: Seq<u8>,
    real_size: u64,
    cfg: DecodeConfig,
    post: EntryDecoder,
    r: Result<StreamStep, DecodeError>,
) -> bool {
    let folded = fold_fragments_model(
        Ok(model_of(builder)),
        block,
        builder.size as int,
        0,
        21,
    );
    &&& (folded matches Err(e) ==> r == Err::<StreamStep, DecodeError>(e))
    &&& (folded matches Ok(m) ==> if block[504] == 0x01 {
        // Another extension block is chained.
        (r == Ok::<StreamStep, DecodeError>(StreamStep::NeedBytes { max: BLOCK_SIZE as u64 }) && (
        post.phase matches StreamPhase::ExtSparse {
            pending: p2,
            builder: b2,
            fill: f2,
            real_size: rs2,
        } && p2 == pending && model_of(b2) == m && b2.size == builder.size && f2.data@ == Seq::<
            u8,
        >::empty() && rs2 == real_size)) || r == Err::<StreamStep, DecodeError>(
            DecodeError::OffsetOverflow,
        )
    } else if m.cursor == real_size && m.remaining == 0 {
        (r matches Ok(StreamStep::Entry { entry: le }) && le.header == pending.header
            && le.header_pos == pending.header_pos && le.file_pos == pending.file_pos && le.size
            == real_size && le.segments@ == m.segments && le.long_pathname
            == pending.long_pathname && le.long_linkname == pending.long_linkname
            && le.pax_extensions == pending.pax_extensions && entry_flags_match(le, cfg)
            && post.phase is Ready)
    } else {
        r == Err::<StreamStep, DecodeError>(DecodeError::SparseSizeMismatch)
    })
    &&& (r is Err ==> sparse_error(r))
}

/// Law: a continuation record is absorbed, never yielded as an entry of
/// its own.
pub proof fn lemma_continuation_never_yielded(
    pre: EntryDecoder,
    entry: RawEntry,
    post: EntryDecoder,
    r: Result<StreamStep, DecodeError>,
)
    requires
        classify_spec(pre, entry, post, r),
        spec_continuation(entry.header.bytes@) is Some,
    ensures
        !(r matches Ok(StreamStep::Entry { .. })),
{
}

/// Law: a second continuation record of one kind, before an entry consumed
/// the first, is rejected as a duplicate.
pub proof fn lemma_duplicate_continuation_rejected(
    pre: EntryDecoder,
    entry: RawEntry,
    post: EntryDecoder,
    r: Result<StreamStep, DecodeError>,
    k: ContKind,
)
    requires
        classify_spec(pre, entry, post, r),
        spec_continuation(entry.header.bytes@) == Some(k),
        buffer_of(pre, k) is Some,
    ensures
        r == Err::<StreamStep, DecodeError>(DecodeError::DuplicateContinuation),
{
}

/// Law: an entry yielded directly from classification carries exactly the
/// pending continuation payloads, which are attached to no other entry.
pub proof fn lemma_buffers_attach_to_yielded_entry(
    pre: EntryDecoder,
    entry: RawEntry,
    post: EntryDecoder,
    r: Result<StreamStep, DecodeError>,
    le: LogicalEntry,
)
    requires
        classify_spec(pre, entry, post, r),
        r == Ok::<StreamStep, DecodeError>(StreamStep::Entry { entry: le }),
    ensures
        le.long_pathname == pre.longname,
        le.long_linkname == pre.longlink,
        le.pax_extensions == pre.pax,
{
}

/// Law: the content segments of any fully resolved entry sum exactly to its
/// resolved logical size, so reading an entry's full content stream yields
/// neither more nor fewer bytes than that size.
pub proof fn lemma_entry_content_total(e: LogicalEntry)
    requires
        e.wf(),
    ensures
        segs_total(e.segments@) == e.size as int,
{
}

}
