//! A fixed-capacity ring of samples: pushing onto a full ring drops the
//! oldest sample.

use vstd::prelude::*;

verus! {

/// Where the `i`-th sample after `read` sits in a ring of `capacity` slots.
pub open spec fn ring_slot(read: int, i: int, capacity: int) -> int {
    if read + i < capacity {
        read + i
    } else {
        read + i - capacity
    }
}

/// A ring of at most `capacity` samples, oldest first.
#[derive(Debug)]
pub struct SampleRing<T> {
    samples: Vec<T>,
    read_index: usize,
    len: usize,
}

impl<T> View for SampleRing<T> {
    type V = Seq<T>;

    /// The samples held, oldest first.
    closed spec fn view(&self) -> Seq<T> {
        Seq::new(
            self.len as nat,
            |i: int| self.samples@[ring_slot(self.read_index as int, i, self.samples@.len() as int)],
        )
    }
}

impl<T> SampleRing<T> {
    /// The read position and length fit the slots.
    pub closed spec fn wf(&self) -> bool {
        &&& self.len <= self.samples@.len()
        &&& self.samples@.len() == 0 ==> self.read_index == 0
        &&& self.samples@.len() > 0 ==> self.read_index < self.samples@.len()
    }

    /// How many samples the ring holds at most.
    pub closed spec fn capacity(&self) -> nat {
        self.samples@.len()
    }
}

impl<T: Copy> SampleRing<T> {
    /// An empty ring of `capacity` slots, each first holding `fill`.
    pub fn new(fill: T, capacity: usize) -> (ring: Self)
        ensures
            ring.wf(),
            ring@ == Seq::<T>::empty(),
            ring.capacity() == capacity,
    {
        let mut samples: Vec<T> = Vec::new();
        let mut i: usize = 0;
        while i < capacity
            invariant
                i <= capacity,
                samples@.len() == i,
            decreases capacity - i,
        {
            samples.push(fill);
            i = i + 1;
        }
        let ring = SampleRing { samples, read_index: 0, len: 0 };
        assert(ring@ =~= Seq::<T>::empty());
        ring
    }

    /// How many samples the ring holds.
    pub fn len(&self) -> (n: usize)
        requires
            self.wf(),
        ensures
            n == self@.len(),
    {
        self.len
    }

    /// Appends `sample`; when the ring is full the oldest sample is dropped.
    /// A ring without slots stays empty.
    pub fn push(&mut self, sample: T)
        requires
            old(self).wf(),
        ensures
            final(self).wf(),
            final(self).capacity() == old(self).capacity(),
            final(self)@ == if old(self).capacity() == 0 {
                old(self)@
            } else if old(self)@.len() == old(self).capacity() {
                old(self)@.drop_first().push(sample)
            } else {
                old(self)@.push(sample)
            },
    {
        let ghost before = self@;
        let capacity = self.samples.len();
        if capacity == 0 {
            return;
        }
        let write = if self.read_index < capacity - self.len {
            self.read_index + self.len
        } else {
            self.read_index - (capacity - self.len)
        };
        self.samples.set(write, sample);
        if self.len == capacity {
            let next = if self.read_index + 1 < capacity {
                self.read_index + 1
            } else {
                0
            };
            self.read_index = next;
            assert(self@ =~= before.drop_first().push(sample));
        } else {
            self.len = self.len + 1;
            assert(self@ =~= before.push(sample));
        }
    }

    /// Removes and returns the oldest sample, if any.
    pub fn pop(&mut self) -> (r: Option<T>)
        requires
            old(self).wf(),
        ensures
            final(self).wf(),
            final(self).capacity() == old(self).capacity(),
            old(self)@.len() == 0 ==> r is None && final(self)@ == old(self)@,
            old(self)@.len() > 0 ==> r == Some(old(self)@[0]) && final(self)@ == old(self)@.drop_first(),
    {
        if self.len == 0 {
            return None;
        }
        let ghost before = self@;
        let sample = self.samples[self.read_index];
        let capacity = self.samples.len();
        let next = if self.read_index + 1 < capacity {
            self.read_index + 1
        } else {
            0
        };
        self.len = self.len - 1;
        self.read_index = next;
        assert(self@ =~= before.drop_first());
        Some(sample)
    }

    /// Drops every sample.
    pub fn clear(&mut self)
        requires
            old(self).wf(),
        ensures
            final(self).wf(),
            final(self).capacity() == old(self).capacity(),
            final(self)@ == Seq::<T>::empty(),
    {
        self.len = 0;
        self.read_index = 0;
        assert(self@ =~= Seq::<T>::empty());
    }

    /// When the ring holds at least `count + delay` samples, moves the
    /// oldest `count` into `output` (replacing what it held) and returns
    /// true; otherwise changes nothing and returns false. The `delay` newest
    /// samples are always left in the ring.
    pub fn take_delayed_into(&mut self, count: usize, delay: usize, output: &mut Vec<T>) -> (taken: bool)
        requires
            old(self).wf(),
        ensures
            final(self).wf(),
            final(self).capacity() == old(self).capacity(),
            taken == (old(self)@.len() >= count + delay),
            taken ==> final(output)@ == old(self)@.take(count as int) && final(self)@ == old(self)@.skip(
                count as int,
            ),
            !taken ==> final(output)@ == old(output)@ && final(self)@ == old(self)@,
    {
        if self.len < count || self.len - count < delay {
            return false;
        }
        let ghost before = self@;
        output.clear();
        let mut k: usize = 0;
        while k < count
            invariant
                k <= count,
                count <= before.len(),
                self.wf(),
                self.capacity() == old(self).capacity(),
                before == old(self)@,
                self@ == before.skip(k as int),
                output@ == before.take(k as int),
            decreases count - k,
        {
            let ghost rest = self@;
            match self.pop() {
                Some(sample) => {
                    output.push(sample);
                },
                None => {},
            }
            assert(output@ =~= before.take(k + 1));
            assert(self@ =~= before.skip(k + 1));
            k = k + 1;
        }
        true
    }
}

/// A ring never holds more samples than it has slots.
pub proof fn lemma_ring_within_capacity<T>(ring: SampleRing<T>)
    requires
        ring.wf(),
    ensures
        ring@.len() <= ring.capacity(),
{
}

} // verus!
