//! A pool of scarce sessions: each is lent to one holder at a time, and
//! comes back to the end of the line.

use std::collections::VecDeque;
use vstd::prelude::*;

verus! {

/// A pool as plain values.
pub struct PoolView<T> {
    /// The sessions that are free, the next one to be lent first.
    pub free: Seq<T>,
    /// How many sessions are out on loan.
    pub lent: nat,
}

/// Sessions that are lent and returned, first returned first lent.
pub struct Pool<T> {
    free: VecDeque<T>,
    lent: usize,
}

impl<T> View for Pool<T> {
    type V = PoolView<T>;

    closed spec fn view(&self) -> PoolView<T> {
        PoolView { free: self.free@, lent: self.lent as nat }
    }
}

impl<T> Pool<T> {
    /// How many sessions the pool has in all, free or lent.
    pub open spec fn size(&self) -> nat {
        self@.free.len() + self@.lent
    }

    /// Whether the number of sessions can be counted.
    pub open spec fn wf(&self) -> bool {
        self.size() <= usize::MAX
    }

    /// A pool without sessions.
    pub fn new() -> (r: Pool<T>)
        ensures
            r.wf(),
            r@.free == Seq::<T>::empty(),
            r@.lent == 0,
    {
        Pool { free: VecDeque::new(), lent: 0 }
    }

    /// Puts a new session at the end of the line.
    pub fn add(&mut self, item: T)
        requires
            old(self).wf(),
            old(self).size() < usize::MAX,
        ensures
            final(self).wf(),
            final(self)@.free == old(self)@.free.push(item),
            final(self)@.lent == old(self)@.lent,
    {
        self.free.push_back(item);
    }

    /// How many sessions are free.
    pub fn free_count(&self) -> (r: usize)
        ensures
            r == self@.free.len(),
    {
        self.free.len()
    }

    /// How many sessions are out on loan.
    pub fn lent_count(&self) -> (r: usize)
        ensures
            r == self@.lent,
    {
        self.lent
    }

    /// Lends the session at the head of the line, if one is free. The number
    /// of sessions stays what it was.
    pub fn acquire(&mut self) -> (r: Option<T>)
        requires
            old(self).wf(),
        ensures
            final(self).wf(),
            final(self).size() == old(self).size(),
            match r {
                Some(item) => {
                    &&& old(self)@.free.len() > 0
                    &&& item == old(self)@.free[0]
                    &&& final(self)@.free == old(self)@.free.drop_first()
                    &&& final(self)@.lent == old(self)@.lent + 1
                },
                None => old(self)@.free.len() == 0 && final(self)@ == old(self)@,
            },
    {
        match self.free.pop_front() {
            Some(item) => {
                self.lent = self.lent + 1;
                assert(self.free@ =~= old(self).free@.drop_first());
                Some(item)
            },
            None => None,
        }
    }

    /// Takes back a session that was lent and puts it at the end of the
    /// line. The number of sessions stays what it was.
    pub fn release(&mut self, item: T)
        requires
            old(self).wf(),
            old(self)@.lent > 0,
        ensures
            final(self).wf(),
            final(self).size() == old(self).size(),
            final(self)@.free == old(self)@.free.push(item),
            final(self)@.lent == old(self)@.lent - 1,
    {
        self.free.push_back(item);
        self.lent = self.lent - 1;
    }
}

} // verus!
