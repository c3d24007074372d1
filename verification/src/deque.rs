//! A bounded FIFO that drops its head when full: the sliding window behind
//! the frame and statistic histories.

use vstd::prelude::*;

verus! {

/// One push into a window of capacity `max`: when the window is full (and
/// non-empty) the head is dropped, then the value becomes the tail.
pub open spec fn spec_ring_push<T>(s: Seq<T>, max: nat, v: T) -> Seq<T> {
    if s.len() >= max && s.len() > 0 {
        s.subrange(1, s.len() as int).push(v)
    } else {
        s.push(v)
    }
}

/// A whole sequence of values pushed one by one, oldest first.
pub open spec fn spec_ring_pushed<T>(s: Seq<T>, max: nat, items: Seq<T>) -> Seq<T>
    decreases items.len(),
{
    if items.len() == 0 {
        s
    } else {
        spec_ring_pushed(
            spec_ring_push(s, max, items[0]),
            max,
            items.subrange(1, items.len() as int),
        )
    }
}

/// A fixed-capacity FIFO; pushing into a full one evicts the head.
#[derive(Clone)]
pub struct CvlMatDeque<T> {
    inner: Vec<T>,
    max: usize,
}

impl<T> View for CvlMatDeque<T> {
    type V = Seq<T>;

    closed spec fn view(&self) -> Seq<T> {
        self.inner@
    }
}

impl<T> CvlMatDeque<T> {
    /// The fixed capacity.
    pub closed spec fn spec_max_size(&self) -> nat {
        self.max as nat
    }

    /// The content never outgrows the capacity.
    pub open spec fn wf(&self) -> bool {
        self@.len() <= self.spec_max_size()
    }

    /// An empty window of the given capacity.
    pub fn new(size: usize) -> (r: CvlMatDeque<T>)
        ensures
            r@ == Seq::<T>::empty(),
            r.spec_max_size() == size,
            r.wf(),
    {
        let r = CvlMatDeque { inner: Vec::new(), max: size };
        assert(r@ =~= Seq::<T>::empty());
        r
    }

    /// How many values the window holds.
    pub fn length(&self) -> (r: usize)
        ensures
            r == self@.len(),
    {
        self.inner.len()
    }

    /// Resets the window: empty content, new capacity.
    pub fn set_max_size(&mut self, queue_size: usize)
        ensures
            final(self)@ == Seq::<T>::empty(),
            final(self).spec_max_size() == queue_size,
            final(self).wf(),
    {
        self.inner = Vec::new();
        self.max = queue_size;
        assert(self@ =~= Seq::<T>::empty());
    }

    /// The fixed capacity.
    pub fn max_size(&self) -> (r: usize)
        ensures
            r == self.spec_max_size(),
    {
        self.max
    }

    /// The value at a 0-based position, oldest first.
    pub fn get(&self, index: usize) -> (r: Option<&T>)
        ensures
            match r {
                Some(v) => index < self@.len() && *v == self@[index as int],
                None => index >= self@.len(),
            },
    {
        if index < self.inner.len() {
            Some(&self.inner[index])
        } else {
            None
        }
    }

    /// Removes and returns the oldest value, if any.
    pub fn take_first(&mut self) -> (r: Option<T>)
        ensures
            old(self)@.len() == 0 ==> r is None && final(self)@ == old(self)@,
            old(self)@.len() > 0 ==> r == Some(old(self)@[0]) && final(self)@ == old(
                self,
            )@.subrange(1, old(self)@.len() as int),
            final(self).spec_max_size() == old(self).spec_max_size(),
            old(self).wf() ==> final(self).wf(),
    {
        if self.inner.len() == 0 {
            None
        } else {
            Some(self.inner.remove(0))
        }
    }

    /// Removes and returns the newest value, if any.
    pub fn take_last(&mut self) -> (r: Option<T>)
        ensures
            old(self)@.len() == 0 ==> r is None && final(self)@ == old(self)@,
            old(self)@.len() > 0 ==> r == Some(old(self)@.last()) && final(self)@ == old(
                self,
            )@.drop_last(),
            final(self).spec_max_size() == old(self).spec_max_size(),
            old(self).wf() ==> final(self).wf(),
    {
        self.inner.pop()
    }

    /// Pushes a value, evicting the head when the window is full.
    pub fn push(&mut self, value: T)
        ensures
            final(self)@ == spec_ring_push(old(self)@, old(self).spec_max_size(), value),
            final(self).spec_max_size() == old(self).spec_max_size(),
            old(self).wf() && old(self).spec_max_size() > 0 ==> final(self).wf(),
    {
        let curr_len = self.inner.len();
        if curr_len >= self.max && curr_len > 0 {
            let _ = self.inner.remove(0);
        }
        self.inner.push(value);
        proof {
            if old(self)@.len() >= old(self).spec_max_size() && old(self)@.len() > 0 {
                assert(self@ =~= old(self)@.subrange(1, old(self)@.len() as int).push(value));
            } else {
                assert(self@ =~= old(self)@.push(value));
            }
        }
    }

    /// The window's content as a slice, oldest first.
    pub fn items(&self) -> (r: &Vec<T>)
        ensures
            r@ == self@,
    {
        &self.inner
    }

    /// A window built from a sequence by repeated pushes, with the capacity
    /// set to the sequence's length, so nothing is evicted.
    pub fn from_vec(values: Vec<T>) -> (r: CvlMatDeque<T>)
        ensures
            r@ == values@,
            r.spec_max_size() == values@.len(),
            r.wf(),
    {
        let ghost all = values@;
        let max = values.len();
        let mut rest = values;
        let mut deque = CvlMatDeque::<T>::new(max);
        while rest.len() > 0
            invariant
                deque.spec_max_size() == max,
                max == all.len(),
                deque@.len() + rest@.len() == all.len(),
                deque@ == all.subrange(0, deque@.len() as int),
                rest@ == all.subrange(deque@.len() as int, all.len() as int),
            decreases rest@.len(),
        {
            let v = rest.remove(0);
            deque.push(v);
            proof {
                assert(deque@ =~= all.subrange(0, deque@.len() as int));
                assert(rest@ =~= all.subrange(deque@.len() as int, all.len() as int));
            }
        }
        proof {
            assert(deque@ =~= all);
        }
        deque
    }
}

impl<T> Default for CvlMatDeque<T> {
    /// An empty window of capacity five.
    fn default() -> (r: CvlMatDeque<T>)
        ensures
            r@ == Seq::<T>::empty(),
            r.spec_max_size() == 5,
            r.wf(),
    {
        CvlMatDeque::new(5)
    }
}

/// The window after a series of pushes holds the tail of everything that
/// ever entered it: with capacity `max` and a start content no longer than
/// `max`, the result is the last `max` values of `start + items` (or all of
/// them, while fewer have entered).
pub proof fn lemma_ring_pushed_is_suffix<T>(start: Seq<T>, max: nat, items: Seq<T>)
    requires
        0 < max,
        start.len() <= max,
    ensures
        ({
            let all = start + items;
            let keep = if all.len() <= max {
                0int
            } else {
                all.len() - max
            };
            spec_ring_pushed(start, max, items) == all.subrange(keep, all.len() as int)
        }),
    decreases items.len(),
{
    let all = start + items;
    let keep = if all.len() <= max { 0int } else { all.len() - max };
    if items.len() == 0 {
        assert(spec_ring_pushed(start, max, items) =~= all.subrange(keep, all.len() as int));
    } else {
        let stepped = spec_ring_push(start, max, items[0]);
        let rest = items.subrange(1, items.len() as int);
        assert(stepped.len() <= max);
        lemma_ring_pushed_is_suffix(stepped, max, rest);
        let all2 = stepped + rest;
        let keep2 = if all2.len() <= max { 0int } else { all2.len() - max };
        if start.len() >= max {
            assert(all2 =~= all.subrange(1, all.len() as int));
            assert(all2.subrange(keep2, all2.len() as int) =~= all.subrange(
                keep,
                all.len() as int,
            ));
        } else {
            assert(all2 =~= all);
            assert(all2.subrange(keep2, all2.len() as int) =~= all.subrange(
                keep,
                all.len() as int,
            ));
        }
    }
}

/// Pushing a sequence of length at least the capacity leaves exactly the
/// last `max` pushed values, in insertion order.
pub proof fn lemma_ring_keeps_last_capacity<T>(start: Seq<T>, max: nat, items: Seq<T>)
    requires
        0 < max,
        start.len() <= max,
        max <= items.len(),
    ensures
        spec_ring_pushed(start, max, items) == items.subrange(
            items.len() - max,
            items.len() as int,
        ),
{
    lemma_ring_pushed_is_suffix(start, max, items);
    let all = start + items;
    let keep = if all.len() <= max { 0int } else { all.len() - max };
    assert(all.subrange(keep, all.len() as int) =~= items.subrange(
        items.len() - max,
        items.len() as int,
    ));
}

} // verus!
