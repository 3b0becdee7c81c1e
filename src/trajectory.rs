use vstd::prelude::*;

verus! {

/// A sampled trajectory: sample `i` is the pair `(time[i], values[i])`.
#[derive(Debug)]
pub struct Integration<T> {
    pub time: Vec<T>,
    pub values: Vec<Vec<T>>,
}

impl<T> Integration<T> {
    /// Every sample pairs one time with one state of `n` components, and
    /// there is at least the initial sample.
    pub open spec fn wf(&self, n: nat) -> bool {
        &&& self.time.len() == self.values.len()
        &&& self.time.len() >= 1
        &&& forall|i: int| 0 <= i < self.values.len() ==> (#[trigger] self.values[i]).len() == n
    }

    /// The trajectory made of the single sample `(t0, y0)`.
    pub fn new(t0: T, y0: Vec<T>) -> (r: Self)
        ensures
            r.wf(y0@.len()),
            r.time@ == seq![t0],
            r.values@ == seq![y0],
    {
        let mut time = Vec::new();
        time.push(t0);
        let mut values = Vec::new();
        values.push(y0);
        Integration { time, values }
    }

    /// Appends the sample `(t, y)`.
    pub fn push(&mut self, t: T, y: Vec<T>)
        requires
            old(self).wf(y@.len()),
        ensures
            final(self).wf(y@.len()),
            final(self).time@ == old(self).time@.push(t),
            final(self).values@ == old(self).values@.push(y),
    {
        self.time.push(t);
        self.values.push(y);
    }

    /// The number of samples.
    pub fn len(&self) -> (r: usize)
        ensures
            r == self.time.len(),
    {
        self.time.len()
    }
}

} // verus!
