//! A fixed-capacity sample buffer that keeps the most recent samples.

use vstd::prelude::*;

verus! {

/// The last `capacity` elements of `s`, or all of `s` when it is no longer.
pub open spec fn keep_last<T>(s: Seq<T>, capacity: nat) -> Seq<T> {
    if s.len() <= capacity {
        s
    } else {
        s.subrange(s.len() - capacity, s.len() as int)
    }
}

/// Contents of a buffer that started as `start` and then received the samples
/// of `fed` one at a time, evicting the oldest after each.
pub open spec fn fed_one_at_a_time<T>(start: Seq<T>, fed: Seq<T>, capacity: nat) -> Seq<T>
    decreases fed.len(),
{
    if fed.len() == 0 {
        start
    } else {
        keep_last(fed_one_at_a_time(start, fed.drop_last(), capacity).push(fed.last()), capacity)
    }
}

/// Trimming twice is trimming once, over everything appended.
pub proof fn lemma_keep_last_append<T>(a: Seq<T>, b: Seq<T>, capacity: nat)
    ensures
        keep_last(keep_last(a, capacity) + b, capacity) == keep_last(a + b, capacity),
{
    let lhs = keep_last(keep_last(a, capacity) + b, capacity);
    let rhs = keep_last(a + b, capacity);
    if a.len() > capacity {
        let k = keep_last(a, capacity);
        assert(lhs.len() == rhs.len());
        assert forall|i: int| 0 <= i < lhs.len() implies lhs[i] == rhs[i] by {
            let off = (k + b).len() - lhs.len();
            let j = i + off;
            if j < k.len() {
                assert(lhs[i] == k[j]);
                assert(k[j] == a[a.len() - capacity + j]);
            } else {
                assert(lhs[i] == b[j - k.len()]);
            }
        }
        assert(lhs =~= rhs);
    }
}

/// Feeding samples one at a time leaves the same contents as appending them
/// all at once and keeping the most recent ones.
pub proof fn lemma_fed_one_at_a_time<T>(start: Seq<T>, fed: Seq<T>, capacity: nat)
    requires
        start.len() <= capacity,
    ensures
        fed_one_at_a_time(start, fed, capacity) == keep_last(start + fed, capacity),
    decreases fed.len(),
{
    if fed.len() > 0 {
        let prefix = fed.drop_last();
        lemma_fed_one_at_a_time(start, prefix, capacity);
        lemma_keep_last_append(start + prefix, seq![fed.last()], capacity);
        assert(keep_last(start + prefix, capacity).push(fed.last()) =~= keep_last(start + prefix,
            capacity) + seq![fed.last()]);
        assert(start + prefix + seq![fed.last()] =~= start + fed);
    } else {
        assert(start + fed =~= start);
    }
}

/// After at least `capacity` samples have been fed one at a time into an empty
/// buffer, it holds exactly `capacity` samples: the last ones fed, in the order
/// in which they came.
pub proof fn lemma_full_after_feeding<T>(fed: Seq<T>, capacity: nat)
    requires
        fed.len() >= capacity,
    ensures
        fed_one_at_a_time(Seq::empty(), fed, capacity).len() == capacity,
        fed_one_at_a_time(Seq::empty(), fed, capacity) == fed.subrange(
            fed.len() - capacity,
            fed.len() as int,
        ),
{
    lemma_fed_one_at_a_time(Seq::<T>::empty(), fed, capacity);
    assert(Seq::<T>::empty() + fed =~= fed);
}

/// A FIFO sample store of fixed capacity: appending past the capacity drops
/// the oldest samples first.
pub struct RollingBuffer<T> {
    samples: Vec<T>,
    capacity: usize,
}

impl<T> View for RollingBuffer<T> {
    type V = Seq<T>;

    closed spec fn view(&self) -> Seq<T> {
        self.samples@
    }
}

impl<T: Copy> RollingBuffer<T> {
    /// The number of samples the buffer keeps.
    pub closed spec fn capacity_spec(&self) -> nat {
        self.capacity as nat
    }

    /// The buffer never holds more than its capacity.
    pub open spec fn wf(&self) -> bool {
        self@.len() <= self.capacity_spec()
    }

    /// An empty buffer that keeps up to `capacity` samples.
    pub fn new(capacity: usize) -> (r: Self)
        ensures
            r.wf(),
            r@ == Seq::<T>::empty(),
            r.capacity_spec() == capacity,
    {
        RollingBuffer { samples: Vec::new(), capacity }
    }

    /// The number of samples the buffer keeps.
    pub fn capacity(&self) -> (r: usize)
        ensures
            r == self.capacity_spec(),
    {
        self.capacity
    }

    /// The number of samples held now.
    pub fn len(&self) -> (r: usize)
        ensures
            r == self@.len(),
    {
        self.samples.len()
    }

    /// Whether the buffer holds as many samples as it keeps.
    pub fn is_full(&self) -> (r: bool)
        requires
            self.wf(),
        ensures
            r == (self@.len() == self.capacity_spec()),
    {
        self.samples.len() == self.capacity
    }

    fn evict_oldest(&mut self)
        ensures
            final(self)@ == keep_last(old(self)@, old(self).capacity_spec()),
            final(self).capacity_spec() == old(self).capacity_spec(),
    {
        let n = self.samples.len();
        if n > self.capacity {
            let tail = self.samples.split_off(n - self.capacity);
            self.samples = tail;
        }
    }

    /// Appends one sample, dropping the oldest one if the buffer was full.
    pub fn push_sample(&mut self, sample: T)
        requires
            old(self).wf(),
        ensures
            final(self).wf(),
            final(self).capacity_spec() == old(self).capacity_spec(),
            final(self)@ == keep_last(old(self)@.push(sample), old(self).capacity_spec()),
    {
        self.samples.push(sample);
        self.evict_oldest();
    }

    /// Appends `new` in order, then drops the oldest samples so that at most
    /// the capacity remains.
    pub fn push_samples(&mut self, new: &[T])
        requires
            old(self).wf(),
        ensures
            final(self).wf(),
            final(self).capacity_spec() == old(self).capacity_spec(),
            final(self)@ == keep_last(old(self)@ + new@, old(self).capacity_spec()),
    {
        let ghost start = self@;
        let mut i: usize = 0;
        while i < new.len()
            invariant
                0 <= i <= new@.len(),
                self.capacity_spec() == old(self).capacity_spec(),
                self@ == start + new@.subrange(0, i as int),
            decreases new@.len() - i,
        {
            self.samples.push(new[i]);
            proof {
                assert(new@.subrange(0, i + 1) =~= new@.subrange(0, i as int).push(new@[i as int]));
            }
            i = i + 1;
        }
        proof {
            assert(new@.subrange(0, new@.len() as int) =~= new@);
        }
        self.evict_oldest();
    }

    /// A copy of the current contents, oldest sample first.
    pub fn snapshot(&self) -> (r: Vec<T>)
        ensures
            r@ == self@,
    {
        let mut out: Vec<T> = Vec::with_capacity(self.samples.len());
        let mut i: usize = 0;
        while i < self.samples.len()
            invariant
                0 <= i <= self.samples@.len(),
                out@ == self.samples@.subrange(0, i as int),
            decreases self.samples@.len() - i,
        {
            out.push(self.samples[i]);
            proof {
                assert(self.samples@.subrange(0, i + 1) =~= self.samples@.subrange(0, i as int).push(
                    self.samples@[i as int],
                ));
            }
            i = i + 1;
        }
        proof {
            assert(self.samples@.subrange(0, self.samples@.len() as int) =~= self.samples@);
        }
        out
    }
}

} // verus!
