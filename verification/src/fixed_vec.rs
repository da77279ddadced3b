//! A fixed-capacity, append-only vector. The PCI device registry is one of
//! these with capacity 32: it lives for the whole process, grows only during
//! enumeration, and overflowing it is a reported failure, never a panic.

use vstd::prelude::*;

verus! {

#[derive(Clone, Copy, PartialEq, Eq, Structural, Debug)]
pub enum FixedVecError {
    /// A push was attempted while the vector already holds `CAPACITY` items.
    Full,
    /// A pop was attempted while the vector holds nothing.
    Empty,
    /// An access was attempted past the current length.
    IndexOutOfRange,
}

/// A vector that never holds more than `CAPACITY` items. Its view is the
/// sequence of items currently stored.
pub struct FixedVec<T, const CAPACITY: usize> {
    data: Vec<T>,
}

impl<T, const CAPACITY: usize> View for FixedVec<T, CAPACITY> {
    type V = Seq<T>;

    closed spec fn view(&self) -> Seq<T> {
        self.data@
    }
}

impl<T, const CAPACITY: usize> FixedVec<T, CAPACITY> {
    pub fn new() -> (r: FixedVec<T, CAPACITY>)
        ensures
            r@ == Seq::<T>::empty(),
    {
        let r = FixedVec { data: Vec::new() };
        proof {
            assert(r@ =~= Seq::<T>::empty());
        }
        r
    }

    pub fn len(&self) -> (r: usize)
        ensures
            r == self@.len(),
    {
        self.data.len()
    }

    /// Appends an item; the vector must not be full.
    pub fn push(&mut self, val: T)
        requires
            old(self)@.len() < CAPACITY,
        ensures
            final(self)@ == old(self)@.push(val),
    {
        self.data.push(val);
    }

    /// Appends an item, or reports `Full` (dropping the item) when the
    /// vector already holds `CAPACITY` items.
    pub fn try_push(&mut self, val: T) -> (r: Result<(), FixedVecError>)
        ensures
            old(self)@.len() < CAPACITY ==> r == Ok::<(), FixedVecError>(()) && final(self)@ == old(self)@.push(val),
            old(self)@.len() >= CAPACITY ==> r == Err::<(), FixedVecError>(FixedVecError::Full)
                && final(self)@ == old(self)@,
    {
        if self.data.len() < CAPACITY {
            self.data.push(val);
            Ok(())
        } else {
            Err(FixedVecError::Full)
        }
    }

    /// Removes and returns the last item; the vector must not be empty.
    pub fn pop(&mut self) -> (r: T)
        requires
            old(self)@.len() > 0,
        ensures
            final(self)@ == old(self)@.drop_last(),
            r == old(self)@.last(),
    {
        self.data.pop().unwrap()
    }

    /// Removes and returns the last item, or reports `Empty`.
    pub fn try_pop(&mut self) -> (r: Result<T, FixedVecError>)
        ensures
            old(self)@.len() > 0 ==> r == Ok::<T, FixedVecError>(old(self)@.last()) && final(self)@ == old(self)@.drop_last(),
            old(self)@.len() == 0 ==> r == Err::<T, FixedVecError>(FixedVecError::Empty) && final(self)@ == old(self)@,
    {
        if self.data.len() > 0 {
            Ok(self.data.pop().unwrap())
        } else {
            Err(FixedVecError::Empty)
        }
    }

    /// The item at `idx`; the index must be within the current length.
    pub fn get(&self, idx: usize) -> (r: &T)
        requires
            idx < self@.len(),
        ensures
            *r == self@[idx as int],
    {
        &self.data[idx]
    }

    /// The item at `idx`, or `IndexOutOfRange`.
    pub fn try_get(&self, idx: usize) -> (r: Result<&T, FixedVecError>)
        ensures
            idx < self@.len() ==> (r matches Ok(v) && *v == self@[idx as int]),
            idx >= self@.len() ==> r == Err::<&T, FixedVecError>(FixedVecError::IndexOutOfRange),
    {
        if idx < self.data.len() {
            Ok(&self.data[idx])
        } else {
            Err(FixedVecError::IndexOutOfRange)
        }
    }

    /// Replaces the item at `idx`; the index must be within the current
    /// length.
    pub fn set(&mut self, idx: usize, val: T)
        requires
            idx < old(self)@.len(),
        ensures
            final(self)@ == old(self)@.update(idx as int, val),
    {
        self.data.set(idx, val);
    }

    /// The stored items as a slice.
    pub fn as_slice(&self) -> (r: &[T])
        ensures
            r@ == self@,
    {
        self.data.as_slice()
    }

    /// A cursor over the stored items.
    pub fn iter(&self) -> (r: FixedVecIter<'_, T, CAPACITY>)
        ensures
            r.vec == self,
            r.idx == 0,
    {
        FixedVecIter { vec: self, idx: 0 }
    }
}

/// A cursor handed out by `FixedVec::iter`: `next` yields each item in
/// storage order, then `None`.
pub struct FixedVecIter<'a, T, const CAPACITY: usize> {
    pub vec: &'a FixedVec<T, CAPACITY>,
    pub idx: usize,
}

impl<'a, T, const CAPACITY: usize> FixedVecIter<'a, T, CAPACITY> {
    pub fn next(&mut self) -> (r: Option<&'a T>)
        requires
            old(self).idx <= old(self).vec@.len(),
        ensures
            final(self).vec == old(self).vec,
            old(self).idx < old(self).vec@.len() ==> final(self).idx == old(self).idx + 1
                && (r matches Some(v) && *v == old(self).vec@[old(self).idx as int]),
            old(self).idx >= old(self).vec@.len() ==> final(self).idx == old(self).idx && r
                is None,
    {
        if self.idx < self.vec.len() {
            let r = self.vec.get(self.idx);
            self.idx = self.idx + 1;
            Some(r)
        } else {
            None
        }
    }
}

} // verus!
