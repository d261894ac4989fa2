//! A two-sample holder that remembers the latest successful read and the one
//! before it, and ignores reads that failed.

use vstd::prelude::*;

verus! {

/// The latest successful sample together with the one that preceded it.
#[derive(Clone, Copy, Debug, PartialEq, Eq)]
pub struct Pair<T> {
    pub previous: Option<T>,
    pub current: T,
}

/// Holds the previous and the current sample of a value read once per tick.
#[derive(Clone, Copy, Debug, PartialEq, Eq)]
pub struct Watcher<T> {
    pub previous: Option<T>,
    pub current: Option<T>,
}

impl<T: Copy> Watcher<T> {
    /// The watcher after one sample: an absent sample changes nothing.
    pub open spec fn spec_update(self, sample: Option<T>) -> Watcher<T> {
        match sample {
            Some(v) => Watcher { previous: self.current, current: Some(v) },
            None => self,
        }
    }

    /// The pair that the watcher reports: none before its first successful sample.
    pub open spec fn spec_pair(self) -> Option<Pair<T>> {
        match self.current {
            Some(c) => Some(Pair { previous: self.previous, current: c }),
            None => None,
        }
    }

    /// A watcher that has never sampled.
    pub fn new() -> (w: Self)
        ensures
            w.previous is None,
            w.current is None,
    {
        Watcher { previous: None, current: None }
    }

    /// The pair as it stands.
    pub fn pair(&self) -> (r: Option<Pair<T>>)
        ensures
            r == self.spec_pair(),
    {
        match self.current {
            Some(c) => Some(Pair { previous: self.previous, current: c }),
            None => None,
        }
    }

    /// Feeds one sample: a present one shifts the pair, an absent one leaves it.
    pub fn update(&mut self, sample: Option<T>) -> (r: Option<Pair<T>>)
        ensures
            *final(self) == old(self).spec_update(sample),
            r == final(self).spec_pair(),
    {
        if let Some(v) = sample {
            self.previous = self.current;
            self.current = Some(v);
        }
        self.pair()
    }
}

/// The watcher after a whole sequence of samples, oldest first.
pub open spec fn feed<T: Copy>(w: Watcher<T>, samples: Seq<Option<T>>) -> Watcher<T>
    decreases samples.len(),
{
    if samples.len() == 0 {
        w
    } else {
        feed(w, samples.drop_last()).spec_update(samples.last())
    }
}

/// The samples that were present, in order.
pub open spec fn present<T>(samples: Seq<Option<T>>) -> Seq<T>
    decreases samples.len(),
{
    if samples.len() == 0 {
        Seq::empty()
    } else {
        match samples.last() {
            Some(v) => present(samples.drop_last()).push(v),
            None => present(samples.drop_last()),
        }
    }
}

/// The element `k` places from the end of `s`, if there is one.
pub open spec fn from_end<T>(s: Seq<T>, k: int) -> Option<T> {
    if k < s.len() {
        Some(s[s.len() - 1 - k])
    } else {
        None
    }
}

/// Starting from a fresh watcher, after any sequence of samples the current value
/// is the last present sample and the previous value is the present sample just
/// before it: absent samples never shift the pair.
pub proof fn lemma_absent_samples_never_shift<T: Copy>(samples: Seq<Option<T>>)
    ensures
        feed(Watcher { previous: None, current: None }, samples).current == from_end(present(samples), 0),
        feed(Watcher { previous: None, current: None }, samples).previous == from_end(present(samples), 1),
    decreases samples.len(),
{
    if samples.len() > 0 {
        lemma_absent_samples_never_shift(samples.drop_last());
    }
}

} // verus!
