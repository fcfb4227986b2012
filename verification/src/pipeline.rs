//! Byte accounting of a streamed transfer: where in the file the next
//! request goes, what position is reported after each chunk, whether a
//! pipelined read asks for more, and how many bytes the call moved.

use vstd::prelude::*;
use crate::transfer::sat_add;

verus! {

/// The bytes moved by one transfer call that started at `start` in a file
/// of `total` bytes. The position in the file is always the start plus
/// the bytes moved (saturating at `u64::MAX`, which no file reaches).
pub struct TransferCounter {
    start: u64,
    moved: u64,
    total: u64,
}

impl TransferCounter {
    pub closed spec fn start(&self) -> u64 {
        self.start
    }

    pub closed spec fn moved(&self) -> u64 {
        self.moved
    }

    pub closed spec fn total(&self) -> u64 {
        self.total
    }

    /// The absolute position reached in the file.
    pub open spec fn position(&self) -> u64 {
        sat_add(self.start(), self.moved())
    }

    /// Nothing moved yet.
    pub fn new(start: u64, total: u64) -> (c: Self)
        ensures
            c.start() == start,
            c.moved() == 0,
            c.total() == total,
            c.position() == start,
    {
        TransferCounter { start, moved: 0, total }
    }

    /// Where the next chunk is read or written.
    pub fn offset(&self) -> (r: u64)
        ensures
            r == self.position(),
    {
        self.start.saturating_add(self.moved)
    }

    /// Bytes moved so far by this call: what the call returns.
    pub fn transferred(&self) -> (r: u64)
        ensures
            r == self.moved(),
    {
        self.moved
    }

    /// The file's size, reported beside each position.
    pub fn total_size(&self) -> (r: u64)
        ensures
            r == self.total(),
    {
        self.total
    }

    /// Counts a chunk of `n` bytes and gives the position to report. The
    /// position never goes backwards.
    pub fn record(&mut self, n: u64) -> (pos: u64)
        ensures
            final(self).start() == old(self).start(),
            final(self).total() == old(self).total(),
            final(self).moved() == sat_add(old(self).moved(), n),
            pos == final(self).position(),
            pos >= old(self).position(),
    {
        self.moved = self.moved.saturating_add(n);
        self.start.saturating_add(self.moved)
    }

    /// After a pipelined read returned `n` bytes (already recorded) of the
    /// `max_read` asked for: read on only when the chunk was full and the
    /// file's end is not reached.
    pub fn read_more(&self, n: u32, max_read: u32) -> (r: bool)
        ensures
            r == (n == max_read && self.position() < self.total()),
    {
        n == max_read && self.start.saturating_add(self.moved) < self.total
    }
}

/// What a pipelined download does after a read came back.
#[derive(Debug, PartialEq, Eq, Structural, Clone, Copy)]
pub enum ReadStep {
    /// An empty read: the file is done; nothing is reported.
    End,
    /// A chunk arrived: report `position`, and read on at `next_read` if
    /// there is one.
    Chunk { position: u64, next_read: Option<u64> },
}

/// What a pipelined upload does with a chunk read from the local file.
#[derive(Debug, PartialEq, Eq, Structural, Clone, Copy)]
pub enum WriteStep {
    /// The local file is done.
    End,
    /// Write the chunk at `write_at`, then report `position`.
    Chunk { write_at: u64, position: u64 },
}

impl TransferCounter {
    /// A read of `max_read` bytes came back with `n` bytes: count them, and
    /// decide whether to read on from the new position.
    pub fn on_read(&mut self, n: u32, max_read: u32) -> (s: ReadStep)
        ensures
            final(self).start() == old(self).start(),
            final(self).total() == old(self).total(),
            n == 0 ==> s == ReadStep::End && final(self).moved() == old(self).moved(),
            n > 0 ==> final(self).moved() == sat_add(old(self).moved(), n as u64),
            n > 0 ==> s == (ReadStep::Chunk {
                position: final(self).position(),
                next_read: if n == max_read && final(self).position() < final(self).total() {
                    Some(final(self).position())
                } else {
                    None
                },
            }),
    {
        if n == 0 {
            return ReadStep::End;
        }
        let position = self.record(n as u64);
        let next_read = if self.read_more(n, max_read) {
            Some(position)
        } else {
            None
        };
        ReadStep::Chunk { position, next_read }
    }

    /// `n` bytes were read from the local file: they are written where the
    /// previous chunk ended, and the position after them is reported.
    pub fn on_chunk(&mut self, n: u64) -> (s: WriteStep)
        ensures
            final(self).start() == old(self).start(),
            final(self).total() == old(self).total(),
            n == 0 ==> s == WriteStep::End && final(self).moved() == old(self).moved(),
            n > 0 ==> final(self).moved() == sat_add(old(self).moved(), n),
            n > 0 ==> s == (WriteStep::Chunk {
                write_at: old(self).position(),
                position: final(self).position(),
            }),
    {
        if n == 0 {
            return WriteStep::End;
        }
        let write_at = self.offset();
        let position = self.record(n);
        WriteStep::Chunk { write_at, position }
    }
}

/// Recording chunks one after another moves the position by their sum:
/// the position after `a` then `b` bytes is that after `a + b` bytes,
/// wherever the sums fit.
pub proof fn record_adds_up(start: u64, moved: u64, a: u64, b: u64)
    requires
        start + moved + a + b <= u64::MAX,
    ensures
        sat_add(start, sat_add(sat_add(moved, a), b)) == start + moved + a + b,
        sat_add(sat_add(moved, a), b) == sat_add(moved, (a + b) as u64),
{
}

/// The total of some chunk sizes.
pub open spec fn chunk_total(ns: Seq<u64>) -> nat
    decreases ns.len(),
{
    if ns.len() == 0 {
        0
    } else {
        chunk_total(ns.drop_last()) + ns.last() as nat
    }
}

/// A run of chunks written one after another, each at the position the
/// counter had reached (as `on_chunk` gives it) and each moving the
/// position on by its size, lands back to back: the `i`-th chunk is
/// written at the start plus the sizes before it, and the run ends at the
/// start plus all the sizes, when that fits in 64 bits.
pub proof fn chunks_land_back_to_back(start: u64, ns: Seq<u64>, writes: Seq<u64>, positions: Seq<u64>)
    requires
        positions.len() == ns.len() + 1,
        writes.len() == ns.len(),
        positions[0] == start,
        forall|i: int| 0 <= i < ns.len() ==> #[trigger] writes[i] == positions[i],
        forall|i: int| 0 <= i < ns.len() ==> #[trigger] positions[i + 1] == sat_add(positions[i], ns[i]),
        start + chunk_total(ns) <= u64::MAX,
    ensures
        forall|i: int| 0 <= i < ns.len() ==> #[trigger] writes[i] == start + chunk_total(ns.take(i)),
        positions.last() == start + chunk_total(ns),
    decreases ns.len(),
{
    if ns.len() == 0 {
        assert(ns.take(0) =~= ns);
    } else {
        let m = (ns.len() - 1) as int;
        let ns0 = ns.drop_last();
        assert(ns.take(m) =~= ns0);
        lemma_total_prefix(ns, m);
        chunks_land_back_to_back(start, ns0, writes.drop_last(), positions.drop_last());
        assert forall|i: int| 0 <= i < ns.len() implies #[trigger] writes[i] == start + chunk_total(ns.take(i)) by {
            if i < m {
                assert(ns0.take(i) =~= ns.take(i));
                assert(writes.drop_last()[i] == writes[i]);
            } else {
                assert(positions.drop_last().last() == positions[m]);
            }
        }
    }
}

proof fn lemma_total_prefix(ns: Seq<u64>, i: int)
    requires
        0 <= i <= ns.len(),
    ensures
        chunk_total(ns.take(i)) <= chunk_total(ns),
    decreases ns.len(),
{
    if i < ns.len() {
        assert(ns.drop_last().take(i) =~= ns.take(i));
        lemma_total_prefix(ns.drop_last(), i);
    } else {
        assert(ns.take(i) =~= ns);
    }
}

} // verus!
