//! The store of recent audio samples: a bounded first-in, first-out buffer
//! that overwrites its oldest sample once it is full.

use ringbuffer::AllocRingBuffer;
use ringbuffer::RingBuffer;
use vstd::prelude::*;

verus! {

/// The largest capacity a [`SampleBuffer`] can be made with.
pub const MAX_CAPACITY: usize = 0x1000_0000;

/// The number of samples one analysis works on, and the capacity of the
/// sample store that feeds it.
pub const SPECTRUM_DATA_LENGTH: usize = 8192;

/// `ringbuffer::AllocRingBuffer`, the ring that holds the samples. Nothing
/// inside it is visible here: what it holds is named by [`ring_items`],
/// [`ring_limit`] and [`ring_writes`].
#[verifier::external_type_specification]
#[verifier::external_body]
#[verifier::reject_recursive_types(T)]
pub struct ExAllocRingBuffer<T>(ringbuffer::AllocRingBuffer<T>);

/// The samples that a ring holds, oldest first.
pub uninterp spec fn ring_items(ring: AllocRingBuffer<u32>) -> Seq<u32>;

/// The capacity that a ring was made with.
pub uninterp spec fn ring_limit(ring: AllocRingBuffer<u32>) -> nat;

/// How many samples were written to a ring since it was made or last cleared.
pub uninterp spec fn ring_writes(ring: AllocRingBuffer<u32>) -> nat;

/// What a bounded buffer holds after one more sample: a full buffer gives up
/// its oldest sample first.
pub open spec fn pushed(items: Seq<u32>, limit: nat, sample: u32) -> Seq<u32> {
    if items.len() == limit {
        items.subrange(1, items.len() as int).push(sample)
    } else {
        items.push(sample)
    }
}

/// What a bounded buffer holds after a run of samples, pushed in order.
pub open spec fn pushed_all(items: Seq<u32>, limit: nat, samples: Seq<u32>) -> Seq<u32>
    decreases samples.len(),
{
    if samples.len() == 0 {
        items
    } else {
        pushed(pushed_all(items, limit, samples.drop_last()), limit, samples.last())
    }
}

/// The last `count` items of a sequence, or all of it where it is shorter.
pub open spec fn newest(items: Seq<u32>, count: nat) -> Seq<u32> {
    if items.len() <= count {
        items
    } else {
        items.subrange(items.len() - count, items.len() as int)
    }
}

/// `AllocRingBuffer::new`: an empty ring of the given capacity, with its
/// write counter at zero. The call panics on a capacity of zero and on one
/// whose allocation, rounded up to a power of two, exceeds the address
/// space; both are left out. The ring does not test whether the allocator
/// gave it memory.
#[verifier::external_body]
fn ring_new(capacity: usize) -> (ring: AllocRingBuffer<u32>)
    requires
        0 < capacity <= MAX_CAPACITY,
    ensures
        ring_items(ring) == Seq::<u32>::empty(),
        ring_limit(ring) == capacity,
        ring_writes(ring) == 0,
{
    AllocRingBuffer::new(capacity)
}

/// `RingBuffer::push`: appends the sample, after dropping the oldest one
/// where the length equals the capacity. The write counter of the ring
/// grows by one, which overflows past `usize::MAX`.
#[verifier::external_body]
fn ring_push(ring: &mut AllocRingBuffer<u32>, sample: u32)
    requires
        ring_writes(*old(ring)) < usize::MAX,
    ensures
        ring_items(*final(ring)) == pushed(ring_items(*old(ring)), ring_limit(*old(ring)), sample),
        ring_limit(*final(ring)) == ring_limit(*old(ring)),
        ring_writes(*final(ring)) == ring_writes(*old(ring)) + 1,
{
    ring.push(sample)
}

/// `RingBuffer::clear`: empties the ring and resets its write counter.
#[verifier::external_body]
fn ring_clear(ring: &mut AllocRingBuffer<u32>)
    ensures
        ring_items(*final(ring)) == Seq::<u32>::empty(),
        ring_limit(*final(ring)) == ring_limit(*old(ring)),
        ring_writes(*final(ring)) == 0,
{
    ring.clear()
}

/// `RingBuffer::len`: the number of samples held.
#[verifier::external_body]
fn ring_len(ring: &AllocRingBuffer<u32>) -> (len: usize)
    ensures
        len == ring_items(*ring).len(),
{
    ring.len()
}

/// `RingBuffer::capacity`: the capacity the ring was made with.
#[verifier::external_body]
fn ring_capacity(ring: &AllocRingBuffer<u32>) -> (capacity: usize)
    ensures
        capacity == ring_limit(*ring),
{
    ring.capacity()
}

/// `RingBuffer::to_vec`: a copy of the samples held, oldest first.
#[verifier::external_body]
fn ring_to_vec(ring: &AllocRingBuffer<u32>) -> (samples: Vec<u32>)
    ensures
        samples@ == ring_items(*ring),
{
    ring.to_vec()
}

/// A fixed-capacity store of the most recent samples, in insertion order.
pub struct SampleBuffer {
    ring: AllocRingBuffer<u32>,
    writes: usize,
}

impl View for SampleBuffer {
    type V = Seq<u32>;

    closed spec fn view(&self) -> Seq<u32> {
        ring_items(self.ring)
    }
}

impl SampleBuffer {
    /// The capacity fixed at construction.
    pub closed spec fn limit(&self) -> nat {
        ring_limit(self.ring)
    }

    /// The buffer never holds more than its capacity, which is positive.
    pub closed spec fn well_formed(&self) -> bool {
        &&& 0 < ring_limit(self.ring) <= MAX_CAPACITY
        &&& ring_items(self.ring).len() <= ring_limit(self.ring)
        &&& ring_items(self.ring).len() <= self.writes
        &&& self.writes == ring_writes(self.ring)
    }

    /// Every well-formed buffer respects its capacity.
    pub proof fn lemma_bounded(&self)
        requires
            self.well_formed(),
        ensures
            0 < self.limit() <= MAX_CAPACITY,
            self@.len() <= self.limit(),
    {
    }

    /// An empty buffer of the given capacity, or `None` where the capacity
    /// is zero or above [`MAX_CAPACITY`].
    pub fn new(capacity: usize) -> (made: Option<SampleBuffer>)
        ensures
            made.is_some() <==> 0 < capacity <= MAX_CAPACITY,
            made matches Some(buffer) ==> {
                &&& buffer.well_formed()
                &&& buffer@ == Seq::<u32>::empty()
                &&& buffer.limit() == capacity
            },
    {
        if capacity == 0 || capacity > MAX_CAPACITY {
            None
        } else {
            Some(SampleBuffer { ring: ring_new(capacity), writes: 0 })
        }
    }

    /// The number of samples held.
    pub fn len(&self) -> (len: usize)
        ensures
            len == self@.len(),
    {
        ring_len(&self.ring)
    }

    /// The capacity fixed at construction.
    pub fn capacity(&self) -> (capacity: usize)
        ensures
            capacity == self.limit(),
    {
        ring_capacity(&self.ring)
    }

    /// Whether the buffer holds as many samples as its capacity allows.
    pub fn is_full(&self) -> (full: bool)
        ensures
            full <==> self@.len() == self.limit(),
    {
        ring_len(&self.ring) == ring_capacity(&self.ring)
    }

    /// Rewrites the ring with the samples it holds, so that its write
    /// counter starts again from their number.
    fn renew(&mut self)
        requires
            old(self).well_formed(),
        ensures
            final(self).well_formed(),
            final(self)@ == old(self)@,
            final(self).limit() == old(self).limit(),
            final(self).writes < usize::MAX,
    {
        let kept = ring_to_vec(&self.ring);
        ring_clear(&mut self.ring);
        let mut i: usize = 0;
        while i < kept.len()
            invariant
                i <= kept.len() <= ring_limit(self.ring) <= MAX_CAPACITY,
                ring_limit(self.ring) == ring_limit(old(self).ring),
                ring_items(self.ring) == kept@.subrange(0, i as int),
                ring_writes(self.ring) == i,
            decreases kept.len() - i,
        {
            ring_push(&mut self.ring, kept[i]);
            assert(kept@.subrange(0, i as int).push(kept@[i as int]) =~= kept@.subrange(
                0,
                i + 1,
            ));
            i = i + 1;
        }
        assert(kept@.subrange(0, kept@.len() as int) =~= kept@);
        self.writes = kept.len();
    }

    /// Appends one sample; a full buffer gives up its oldest sample.
    pub fn push(&mut self, sample: u32)
        requires
            old(self).well_formed(),
        ensures
            final(self).well_formed(),
            final(self).limit() == old(self).limit(),
            final(self)@ == pushed(old(self)@, old(self).limit(), sample),
    {
        if self.writes == usize::MAX {
            self.renew();
        }
        ring_push(&mut self.ring, sample);
        self.writes = self.writes + 1;
    }

    /// Drops every sample; the capacity stays.
    pub fn clear(&mut self)
        requires
            old(self).well_formed(),
        ensures
            final(self).well_formed(),
            final(self).limit() == old(self).limit(),
            final(self)@ == Seq::<u32>::empty(),
    {
        ring_clear(&mut self.ring);
        self.writes = 0;
    }

    /// Appends a chunk of samples in order.
    pub fn extend(&mut self, chunk: &Vec<u32>)
        requires
            old(self).well_formed(),
        ensures
            final(self).well_formed(),
            final(self).limit() == old(self).limit(),
            final(self)@ == pushed_all(old(self)@, old(self).limit(), chunk@),
            final(self)@ == newest(old(self)@ + chunk@, old(self).limit()),
    {
        let mut i: usize = 0;
        while i < chunk.len()
            invariant
                i <= chunk.len(),
                self.well_formed(),
                self.limit() == old(self).limit(),
                self@ == pushed_all(old(self)@, old(self).limit(), chunk@.subrange(0, i as int)),
            decreases chunk.len() - i,
        {
            proof {
                let next = chunk@.subrange(0, i + 1);
                assert(next.drop_last() =~= chunk@.subrange(0, i as int));
                assert(next.last() == chunk@[i as int]);
            }
            self.push(chunk[i]);
            i = i + 1;
        }
        proof {
            assert(chunk@.subrange(0, chunk@.len() as int) =~= chunk@);
            lemma_pushed_all_keeps_newest(old(self)@, old(self).limit(), chunk@);
        }
    }

    /// A copy of the samples held, oldest first, once the buffer is full;
    /// `None` while it is still filling.
    pub fn snapshot(&self) -> (copy: Option<Vec<u32>>)
        ensures
            copy.is_some() <==> self@.len() == self.limit(),
            copy matches Some(samples) ==> samples@ == self@,
    {
        if self.is_full() {
            Some(ring_to_vec(&self.ring))
        } else {
            None
        }
    }
}

impl Default for SampleBuffer {
    /// An empty buffer of [`SPECTRUM_DATA_LENGTH`] samples.
    fn default() -> (buffer: SampleBuffer)
        ensures
            buffer.well_formed(),
            buffer@ == Seq::<u32>::empty(),
            buffer.limit() == SPECTRUM_DATA_LENGTH,
    {
        SampleBuffer::new(SPECTRUM_DATA_LENGTH).unwrap()
    }
}

/// Pushing a run of samples into a bounded buffer leaves the newest samples
/// of everything it was given, as many as the capacity allows, in order.
pub proof fn lemma_pushed_all_keeps_newest(items: Seq<u32>, limit: nat, samples: Seq<u32>)
    requires
        0 < limit,
        items.len() <= limit,
    ensures
        pushed_all(items, limit, samples) == newest(items + samples, limit),
        pushed_all(items, limit, samples).len() <= limit,
    decreases samples.len(),
{
    if samples.len() == 0 {
        assert(items + samples =~= items);
    } else {
        let front = samples.drop_last();
        lemma_pushed_all_keeps_newest(items, limit, front);
        let before = items + front;
        let after = items + samples;
        assert(after =~= before.push(samples.last()));
        assert(pushed(newest(before, limit), limit, samples.last()) =~= newest(after, limit));
    }
}

/// The oldest-overwrite law: once at least as many samples were pushed as
/// the capacity, the buffer holds exactly the last `limit` of them, in the
/// order in which they were pushed.
pub proof fn lemma_overwrites_oldest(items: Seq<u32>, limit: nat, samples: Seq<u32>)
    requires
        0 < limit,
        items.len() <= limit,
        samples.len() >= limit,
    ensures
        pushed_all(items, limit, samples).len() == limit,
        pushed_all(items, limit, samples) == samples.subrange(
            samples.len() - limit,
            samples.len() as int,
        ),
{
    lemma_pushed_all_keeps_newest(items, limit, samples);
    let all = items + samples;
    assert(newest(all, limit) =~= samples.subrange(samples.len() - limit, samples.len() as int));
}

} // verus!
