use vstd::prelude::*;
use crate::header::BLOCK_SIZE;

verus! {

/// An in-progress fill of one 512-byte record.
///
/// A single read may deliver only part of a record; the fill keeps every
/// byte received so far, so the operation can be resumed after any partial
/// delivery with no re-reading and no data loss. The same primitive fills
/// the main header record and each chained extended sparse header block.
#[derive(Debug)]
pub struct BlockFill {
    pub data: Vec<u8>,
}

impl BlockFill {
    pub open spec fn wf(&self) -> bool {
        self.data@.len() <= BLOCK_SIZE
    }

    /// How many bytes of the record have been received so far.
    pub open spec fn spec_filled(&self) -> int {
        self.data@.len() as int
    }

    /// Begin a fresh record with no bytes received.
    pub fn new() -> (f: BlockFill)
        ensures
            f.wf(),
            f.data@ == Seq::<u8>::empty(),
    {
        BlockFill { data: Vec::new() }
    }

    /// How many bytes are still missing from the record.
    pub fn needed(&self) -> (r: usize)
        requires
            self.wf(),
        ensures
            r == BLOCK_SIZE - self.spec_filled(),
    {
        BLOCK_SIZE - self.data.len()
    }

    /// Accept the bytes one read delivered. Returns whether the record is
    /// now complete.
    pub fn accept(&mut self, chunk: &[u8]) -> (done: bool)
        requires
            old(self).wf(),
            chunk@.len() <= BLOCK_SIZE - old(self).spec_filled(),
        ensures
            final(self).wf(),
            final(self).data@ == old(self).data@ + chunk@,
            done <==> final(self).data@.len() == BLOCK_SIZE,
    {
        let mut i: usize = 0;
        let n = chunk.len();
        while i < n
            invariant
                0 <= i <= n,
                n == chunk@.len(),
                old(self).data@.len() + n <= BLOCK_SIZE,
                self.data@ == old(self).data@ + chunk@.subrange(0, i as int),
            decreases n - i,
        {
            self.data.push(chunk[i]);
            i += 1;
            assert(self.data@ =~= old(self).data@ + chunk@.subrange(0, i as int));
        }
        assert(self.data@ =~= old(self).data@ + chunk@);
        self.data.len() == BLOCK_SIZE
    }
}

/// Append the bytes one read delivered to a continuation payload buffer.
pub fn append_bytes(buf: &mut Vec<u8>, chunk: &[u8])
    ensures
        final(buf)@ == old(buf)@ + chunk@,
{
    let mut i: usize = 0;
    let n = chunk.len();
    while i < n
        invariant
            0 <= i <= n,
            n == chunk@.len(),
            buf@ == old(buf)@ + chunk@.subrange(0, i as int),
        decreases n - i,
    {
        buf.push(chunk[i]);
        i += 1;
        assert(buf@ =~= old(buf)@ + chunk@.subrange(0, i as int));
    }
    assert(buf@ =~= old(buf)@ + chunk@);
}

}
