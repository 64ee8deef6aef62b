use vstd::prelude::*;

verus! {

/// Contents after appending `x` to a window of at most `capacity` items:
/// the oldest item leaves when the window would overflow.
pub open spec fn window_push<T>(items: Seq<T>, x: T, capacity: nat) -> Seq<T> {
    let s = items.push(x);
    if s.len() > capacity {
        s.drop_first()
    } else {
        s
    }
}

/// Contents after appending each of `xs` in order.
pub open spec fn window_push_all<T>(items: Seq<T>, xs: Seq<T>, capacity: nat) -> Seq<T>
    decreases xs.len(),
{
    if xs.len() == 0 {
        items
    } else {
        window_push(window_push_all(items, xs.drop_last(), capacity), xs.last(), capacity)
    }
}

/// The last `n` items of `s` (all of them when there are fewer).
pub open spec fn last_n<T>(s: Seq<T>, n: nat) -> Seq<T> {
    if s.len() <= n {
        s
    } else {
        s.subrange(s.len() - n, s.len() as int)
    }
}

/// First-in first-out window of recent samples with a fixed capacity.
#[derive(Debug, Clone)]
pub struct SampleWindow<T> {
    items: Vec<T>,
    capacity: usize,
}

impl<T> View for SampleWindow<T> {
    type V = Seq<T>;

    closed spec fn view(&self) -> Seq<T> {
        self.items@
    }
}

impl<T> SampleWindow<T> {
    pub closed spec fn capacity_spec(&self) -> nat {
        self.capacity as nat
    }

    pub closed spec fn wf(&self) -> bool {
        &&& 0 < self.capacity
        &&& self.items@.len() <= self.capacity
    }

    pub fn new(capacity: usize) -> (r: SampleWindow<T>)
        requires
            capacity > 0,
        ensures
            r.wf(),
            r@ == Seq::<T>::empty(),
            r.capacity_spec() == capacity,
    {
        SampleWindow { items: Vec::new(), capacity }
    }

    pub fn capacity(&self) -> (r: usize)
        ensures
            r == self.capacity_spec(),
    {
        self.capacity
    }

    pub fn len(&self) -> (r: usize)
        requires
            self.wf(),
        ensures
            r == self@.len(),
            r <= self.capacity_spec(),
    {
        self.items.len()
    }

    pub fn is_empty(&self) -> (r: bool)
        requires
            self.wf(),
        ensures
            r == (self@.len() == 0),
    {
        self.items.len() == 0
    }

    /// Appends a sample, evicting the oldest one when the window is full.
    pub fn push(&mut self, x: T)
        requires
            old(self).wf(),
        ensures
            final(self).wf(),
            final(self).capacity_spec() == old(self).capacity_spec(),
            final(self)@ == window_push(old(self)@, x, old(self).capacity_spec()),
    {
        self.items.push(x);
        if self.items.len() > self.capacity {
            self.items.remove(0);
        }
        proof {
            assert(self.items@ =~= window_push(old(self)@, x, old(self).capacity_spec()));
        }
    }

    /// Drops the oldest sample, if any.
    pub fn evict_oldest(&mut self)
        requires
            old(self).wf(),
        ensures
            final(self).wf(),
            final(self).capacity_spec() == old(self).capacity_spec(),
            final(self)@ == (if old(self)@.len() == 0 {
                old(self)@
            } else {
                old(self)@.drop_first()
            }),
    {
        if self.items.len() > 0 {
            self.items.remove(0);
            proof {
                assert(self.items@ =~= old(self)@.drop_first());
            }
        }
    }

    /// Removes every sample.
    pub fn clear(&mut self)
        requires
            old(self).wf(),
        ensures
            final(self).wf(),
            final(self).capacity_spec() == old(self).capacity_spec(),
            final(self)@ == Seq::<T>::empty(),
    {
        self.items.clear();
    }

    /// The `i`-th sample, oldest first.
    pub fn get(&self, i: usize) -> (r: &T)
        requires
            self.wf(),
            i < self@.len(),
        ensures
            *r == self@[i as int],
    {
        &self.items[i]
    }

    /// The most recent sample.
    pub fn last(&self) -> (r: Option<&T>)
        requires
            self.wf(),
        ensures
            self@.len() == 0 ==> r is None,
            self@.len() > 0 ==> r == Some(&self@.last()),
    {
        if self.items.len() == 0 {
            None
        } else {
            Some(&self.items[self.items.len() - 1])
        }
    }

    /// All samples, oldest first.
    pub fn as_slice(&self) -> (r: &[T])
        requires
            self.wf(),
        ensures
            r@ == self@,
    {
        self.items.as_slice()
    }
}

/// A window filled from empty holds exactly the most recent `capacity`
/// samples, oldest first, and never more than `capacity` of them.
pub proof fn lemma_window_keeps_latest<T>(xs: Seq<T>, capacity: nat)
    requires
        capacity > 0,
    ensures
        window_push_all(Seq::<T>::empty(), xs, capacity) == last_n(xs, capacity),
        window_push_all(Seq::<T>::empty(), xs, capacity).len() <= capacity,
    decreases xs.len(),
{
    if xs.len() > 0 {
        let prefix = xs.drop_last();
        lemma_window_keeps_latest(prefix, capacity);
        let before = last_n(prefix, capacity);
        let after = window_push(before, xs.last(), capacity);
        assert(after =~= last_n(xs, capacity));
    }
}

} // verus!
