//! Playback ring buffer: a bounded single-producer/single-consumer sample
//! queue bridging the audio resample stage and the audio driver callback.
//!
//! Samples travel as the bit patterns of the driver's interleaved samples,
//! so the queue itself is exact integer data; `SILENCE` is the pattern of a
//! silent sample, substituted on underrun.  The producer only ever hands in
//! whole resampled chunks: a chunk that does not fit is refused unchanged,
//! never torn, and the caller waits and retries instead of overwriting
//! unread samples.

use std::collections::VecDeque;
use vstd::prelude::*;

verus! {

broadcast use vstd::std_specs::vecdeque::group_vec_dequeue_axioms;

/// Default capacity of the playback ring buffer, in samples.
pub const DEFAULT_QUEUE_CAPACITY: usize = 8192;

/// Bit pattern of one silent sample.
pub const SILENCE: u32 = 0;

/// Bounded sample queue; holds at most `cap()` samples, oldest first.
pub struct SampleQueue {
    items: VecDeque<u32>,
    capacity: usize,
}

impl View for SampleQueue {
    type V = Seq<u32>;

    /// The pending samples, oldest first.
    closed spec fn view(&self) -> Seq<u32> {
        self.items@
    }
}

impl SampleQueue {
    /// The fixed capacity the queue was created with.
    pub closed spec fn cap(&self) -> int {
        self.capacity as int
    }

    /// Queue invariant: the pending samples never exceed the capacity.
    pub open spec fn wf(&self) -> bool {
        self@.len() <= self.cap()
    }

    /// An empty queue of the given capacity.
    pub fn new(capacity: usize) -> (q: SampleQueue)
        ensures
            q@ == Seq::<u32>::empty(),
            q.cap() == capacity,
            q.wf(),
    {
        SampleQueue { items: VecDeque::with_capacity(capacity), capacity }
    }

    /// An empty queue of the default playback capacity.
    pub fn with_default_capacity() -> (q: SampleQueue)
        ensures
            q@ == Seq::<u32>::empty(),
            q.cap() == DEFAULT_QUEUE_CAPACITY,
            q.wf(),
    {
        SampleQueue::new(DEFAULT_QUEUE_CAPACITY)
    }

    /// The fixed capacity, in samples.
    pub fn capacity(&self) -> (c: usize)
        ensures
            c == self.cap(),
    {
        self.capacity
    }

    /// How many samples are pending.
    pub fn len(&self) -> (n: usize)
        ensures
            n == self@.len(),
    {
        self.items.len()
    }

    /// How many more samples fit.
    pub fn free(&self) -> (n: usize)
        requires
            self.wf(),
        ensures
            n == self.cap() - self@.len(),
    {
        self.capacity - self.items.len()
    }

    /// Push a whole resampled chunk, or nothing at all.  The chunk is
    /// appended only if it fits in the free capacity; a chunk too large is
    /// refused with the queue unchanged, so pending samples are never
    /// overwritten and no partial chunk is ever queued.  On refusal the
    /// producer waits and retries; that backpressure bounds decode-ahead.
    pub fn try_push_chunk(&mut self, chunk: &Vec<u32>) -> (ok: bool)
        requires
            old(self).wf(),
        ensures
            final(self).wf(),
            final(self).cap() == old(self).cap(),
            ok ==> {
                &&& chunk@.len() <= old(self).cap() - old(self)@.len()
                &&& final(self)@ == old(self)@ + chunk@
            },
            !ok ==> {
                &&& chunk@.len() > old(self).cap() - old(self)@.len()
                &&& final(self)@ == old(self)@
            },
    {
        if chunk.len() > self.capacity - self.items.len() {
            return false;
        }
        let ghost start = self.items@;
        let mut k: usize = 0;
        while k < chunk.len()
            invariant
                k <= chunk@.len(),
                self.items@ == start + chunk@.take(k as int),
                self.capacity == old(self).capacity,
                start.len() + chunk@.len() <= self.capacity,
            decreases chunk@.len() - k,
        {
            self.items.push_back(chunk[k]);
            proof {
                assert(chunk@.take(k + 1).drop_last() =~= chunk@.take(k as int));
                assert(self.items@ =~= start + chunk@.take(k + 1));
            }
            k += 1;
        }
        proof {
            assert(chunk@.take(chunk@.len() as int) =~= chunk@);
        }
        true
    }

    /// Fill one driver buffer: pop the `n` oldest pending samples in
    /// order, padding with silence once the queue runs dry.  This is what
    /// the audio callback writes to the hardware buffer, slot by slot.
    pub fn fill_or_silence(&mut self, n: usize) -> (samples: Vec<u32>)
        requires
            old(self).wf(),
        ensures
            final(self).wf(),
            final(self).cap() == old(self).cap(),
            samples@.len() == n,
            forall|k: int|
                0 <= k < n ==> #[trigger] samples@[k] == if k < old(self)@.len() {
                    old(self)@[k]
                } else {
                    SILENCE
                },
            final(self)@ == if n <= old(self)@.len() {
                old(self)@.skip(n as int)
            } else {
                Seq::<u32>::empty()
            },
    {
        let mut samples: Vec<u32> = Vec::new();
        let mut k: usize = 0;
        while k < n
            invariant
                old(self).wf(),
                self.wf(),
                self.cap() == old(self).cap(),
                k <= n,
                samples@.len() == k,
                forall|m: int|
                    0 <= m < k ==> #[trigger] samples@[m] == if m < old(self)@.len() {
                        old(self)@[m]
                    } else {
                        SILENCE
                    },
                self@ == if k <= old(self)@.len() {
                    old(self)@.skip(k as int)
                } else {
                    Seq::<u32>::empty()
                },
            decreases n - k,
        {
            let s = self.pop_or_silence();
            samples.push(s);
            proof {
                if k < old(self)@.len() {
                    assert(old(self)@.skip(k as int).drop_first() =~= old(self)@.skip(k + 1));
                    assert(old(self)@.skip(k as int)[0] == old(self)@[k as int]);
                } else {
                    assert(self@ =~= Seq::<u32>::empty());
                }
            }
            k += 1;
        }
        samples
    }

    /// Pop the oldest pending sample, or silence if none is pending.  The
    /// audio driver calls this once per output slot on its own thread;
    /// underrun is a normal condition, answered with silence, never with
    /// blocking or a panic.
    pub fn pop_or_silence(&mut self) -> (s: u32)
        requires
            old(self).wf(),
        ensures
            final(self).wf(),
            final(self).cap() == old(self).cap(),
            old(self)@.len() > 0 ==> {
                &&& s == old(self)@[0]
                &&& final(self)@ == old(self)@.drop_first()
            },
            old(self)@.len() == 0 ==> {
                &&& s == SILENCE
                &&& final(self)@ == old(self)@
            },
    {
        match self.items.pop_front() {
            Some(sample) => {
                proof {
                    assert(self.items@ =~= old(self)@.drop_first());
                }
                sample
            },
            None => SILENCE,
        }
    }
}

} // verus!
