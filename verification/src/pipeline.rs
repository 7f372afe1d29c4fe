//! Pipeline bookkeeping: the per-buffer state machine and the ordering that
//! the two bounded queues enforce.
//!
//! Each buffer cycles `Empty → Hashing → Full → Writing → Empty`, moved only
//! by queue handoffs. The scheduler dispatches chunks in ascending index
//! order; the writer takes a full buffer only when it carries exactly the
//! next chunk the file is owed, so writes land in ascending chunk order and
//! only one buffer is ever being written.

use vstd::prelude::*;

verus! {

/// Where one buffer stands in its round; the busy states carry the index of
/// the chunk the buffer holds.
#[derive(Clone, Copy, PartialEq, Eq, Structural)]
pub enum BufState {
    /// Waiting in the empty queue.
    Empty,
    /// Loaned to the worker pool.
    Hashing(u64),
    /// Waiting in the full queue.
    Full(u64),
    /// Loaned to the writer.
    Writing(u64),
}

/// The chunk a buffer holds, if any.
pub open spec fn chunk_of(b: BufState) -> Option<u64> {
    match b {
        BufState::Empty => None,
        BufState::Hashing(c) => Some(c),
        BufState::Full(c) => Some(c),
        BufState::Writing(c) => Some(c),
    }
}

/// The bookkeeping the scheduler and the writer share: one state per buffer,
/// the next chunk to dispatch, the next chunk the file is owed, and the log
/// of chunks written so far.
pub struct Pipeline {
    /// One state per buffer.
    pub states: Vec<BufState>,
    /// Next chunk index the scheduler hands to a hasher.
    pub next_dispatch: u64,
    /// Next chunk index the writer owes the file.
    pub next_write: u64,
    /// Chunks in the whole run.
    pub total_chunks: u64,
    /// Order in which chunks have been written out.
    pub written: Ghost<Seq<u64>>,
}

impl Pipeline {
    /// Everything the queue discipline keeps true between handoffs: counters
    /// ordered, every held chunk in flight, held chunks distinct, a buffer
    /// being written holding exactly the owed chunk, and the write log being
    /// the owed prefix in order.
    pub open spec fn wf(self) -> bool {
        &&& self.next_write <= self.next_dispatch <= self.total_chunks
        &&& forall|i: int|
            0 <= i < self.states@.len() ==> match chunk_of(#[trigger] self.states@[i]) {
                Some(c) => self.next_write <= c < self.next_dispatch,
                None => true,
            }
        &&& forall|i: int|
            0 <= i < self.states@.len() && (#[trigger] self.states@[i]) is Writing ==> chunk_of(
                self.states@[i],
            ) == Some(self.next_write)
        &&& forall|i: int, j: int|
            0 <= i < j < self.states@.len() && chunk_of(#[trigger] self.states@[i]) is Some
                && chunk_of(#[trigger] self.states@[j]) is Some ==> chunk_of(self.states@[i])
                != chunk_of(self.states@[j])
        &&& self.written@ == Seq::new(self.next_write as nat, |k: int| k as u64)
    }

    /// A fresh pipeline: every buffer empty, nothing dispatched or written.
    pub fn new(num_buffer: usize, total_chunks: u64) -> (r: Pipeline)
        ensures
            r.wf(),
            r.states@.len() == num_buffer,
            forall|i: int| 0 <= i < num_buffer ==> r.states@[i] is Empty,
            r.next_dispatch == 0,
            r.next_write == 0,
            r.total_chunks == total_chunks,
            r.written@.len() == 0,
    {
        let mut states: Vec<BufState> = Vec::new();
        let mut z: usize = 0;
        while z < num_buffer
            invariant
                z <= num_buffer,
                states@.len() == z,
                forall|i: int| 0 <= i < z ==> states@[i] is Empty,
            decreases num_buffer - z,
        {
            states.push(BufState::Empty);
            z += 1;
        }
        let r = Pipeline {
            states,
            next_dispatch: 0,
            next_write: 0,
            total_chunks,
            written: Ghost(Seq::empty()),
        };
        proof {
            assert(r.written@ =~= Seq::new(0nat, |k: int| k as u64));
        }
        r
    }

    /// Scheduler side: loan empty buffer `b` to the hashers for the next
    /// chunk; returns that chunk's index.
    pub fn dispatch(&mut self, b: usize) -> (c: u64)
        requires
            old(self).wf(),
            b < old(self).states@.len(),
            old(self).states@[b as int] is Empty,
            old(self).next_dispatch < old(self).total_chunks,
        ensures
            final(self).wf(),
            c == old(self).next_dispatch,
            final(self).states@ == old(self).states@.update(b as int, BufState::Hashing(c)),
            final(self).next_dispatch == old(self).next_dispatch + 1,
            final(self).next_write == old(self).next_write,
            final(self).total_chunks == old(self).total_chunks,
            final(self).written@ == old(self).written@,
    {
        let c = self.next_dispatch;
        self.states.set(b, BufState::Hashing(c));
        self.next_dispatch = self.next_dispatch + 1;
        c
    }

    /// Worker-pool side: the loaned buffer is fully hashed and joins the
    /// full queue.
    pub fn finish_hash(&mut self, b: usize)
        requires
            old(self).wf(),
            b < old(self).states@.len(),
            old(self).states@[b as int] is Hashing,
        ensures
            final(self).wf(),
            final(self).states@ == old(self).states@.update(
                b as int,
                BufState::Full(chunk_of(old(self).states@[b as int]).unwrap()),
            ),
            final(self).next_dispatch == old(self).next_dispatch,
            final(self).next_write == old(self).next_write,
            final(self).total_chunks == old(self).total_chunks,
            final(self).written@ == old(self).written@,
    {
        let st = self.states[b];
        match st {
            BufState::Hashing(c) => {
                self.states.set(b, BufState::Full(c));
            },
            _ => {},
        }
    }

    /// Writer side: take full buffer `b`. The writer asserts in-order
    /// receipt: the buffer must carry exactly the chunk the file is owed.
    pub fn start_write(&mut self, b: usize) -> (c: u64)
        requires
            old(self).wf(),
            b < old(self).states@.len(),
            old(self).states@[b as int] == BufState::Full(old(self).next_write),
        ensures
            final(self).wf(),
            c == old(self).next_write,
            final(self).states@ == old(self).states@.update(b as int, BufState::Writing(c)),
            final(self).next_dispatch == old(self).next_dispatch,
            final(self).next_write == old(self).next_write,
            final(self).total_chunks == old(self).total_chunks,
            final(self).written@ == old(self).written@,
    {
        let c = self.next_write;
        self.states.set(b, BufState::Writing(c));
        c
    }

    /// Writer side: buffer `b` is drained and durable; it returns to the
    /// empty queue and the write log grows by its chunk.
    pub fn finish_write(&mut self, b: usize)
        requires
            old(self).wf(),
            b < old(self).states@.len(),
            old(self).states@[b as int] is Writing,
        ensures
            final(self).wf(),
            final(self).states@ == old(self).states@.update(b as int, BufState::Empty),
            final(self).next_dispatch == old(self).next_dispatch,
            final(self).next_write == old(self).next_write + 1,
            final(self).total_chunks == old(self).total_chunks,
            final(self).written@ == old(self).written@.push(old(self).next_write),
    {
        self.states.set(b, BufState::Empty);
        proof {
            self.written@ = self.written@.push(self.next_write);
        }
        self.next_write = self.next_write + 1;
        proof {
            assert(self.written@ =~= Seq::new(self.next_write as nat, |k: int| k as u64));
        }
    }

    /// No two buffers are ever in the writing state at once.
    pub proof fn lemma_at_most_one_writer(self, i: int, j: int)
        requires
            self.wf(),
            0 <= i < self.states@.len(),
            0 <= j < self.states@.len(),
            self.states@[i] is Writing,
            self.states@[j] is Writing,
        ensures
            i == j,
    {
        if i < j {
            assert(chunk_of(self.states@[i]) == Some(self.next_write));
            assert(chunk_of(self.states@[j]) == Some(self.next_write));
        } else if j < i {
            assert(chunk_of(self.states@[i]) == Some(self.next_write));
            assert(chunk_of(self.states@[j]) == Some(self.next_write));
        }
    }

    /// The writer consumes chunks in strictly ascending chunk order: the
    /// write log is strictly increasing.
    pub proof fn lemma_writer_order(self, i: int, j: int)
        requires
            self.wf(),
            0 <= i < j < self.written@.len(),
        ensures
            self.written@[i] < self.written@[j],
    {
    }
}

} // verus!
