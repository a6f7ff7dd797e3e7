//! Per-depth counters for ordered-list numbering.
use vstd::prelude::*;

verus! {

/// One counter per open numbered-list depth; never empty.
pub struct ListContext {
    counters: Vec<usize>,
}

impl View for ListContext {
    type V = Seq<usize>;

    closed spec fn view(&self) -> Seq<usize> {
        self.counters@
    }
}

impl ListContext {
    /// The counters are never empty.
    pub open spec fn wf(&self) -> bool {
        self@.len() >= 1
    }

    /// The counter of the innermost depth.
    pub open spec fn current(&self) -> usize {
        self@.last()
    }

    /// A single depth whose counter is zero.
    pub fn new() -> (r: ListContext)
        ensures
            r@ == seq![0usize],
            r.wf(),
    {
        ListContext { counters: vec![0] }
    }

    /// Counts one more item at the innermost depth and returns its number.
    pub fn next_number(&mut self) -> (n: usize)
        requires
            old(self).wf(),
            old(self).current() < usize::MAX,
        ensures
            n == old(self).current() + 1,
            final(self)@ == old(self)@.update(old(self)@.len() - 1, n),
            final(self).wf(),
    {
        let last = self.counters.len() - 1;
        let n = self.counters[last] + 1;
        self.counters.set(last, n);
        n
    }

    /// Opens a new depth whose counter is zero.
    pub fn push(&mut self)
        ensures
            final(self)@ == old(self)@.push(0usize),
            final(self).wf(),
    {
        self.counters.push(0);
    }

    /// Closes the innermost depth; a context left empty gets one zero counter.
    pub fn pop(&mut self)
        ensures
            final(self)@ == if old(self)@.len() > 1 {
                old(self)@.drop_last()
            } else {
                seq![0usize]
            },
            final(self).wf(),
    {
        let _ = self.counters.pop();
        if self.counters.len() == 0 {
            self.counters.push(0);
            assert(self.counters@ =~= seq![0usize]);
        }
    }
}

} // verus!
