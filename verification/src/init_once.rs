//! A cell that is written at most once: `None` until the one initialization,
//! `Some` ever after. Its view is the optional value it currently holds.

use vstd::prelude::*;

verus! {

pub struct InitOnce<T> {
    inner: Option<T>,
}

impl<T> View for InitOnce<T> {
    type V = Option<T>;

    closed spec fn view(&self) -> Option<T> {
        self.inner
    }
}

impl<T> Default for InitOnce<T> {
    /// An empty, not yet initialized cell.
    fn default() -> (r: InitOnce<T>)
        ensures
            r@ is None,
    {
        InitOnce { inner: None }
    }
}

impl<T> InitOnce<T> {
    /// Runs `f` and stores its result, unless a value is already held; a
    /// second initialization changes nothing and `f` is not run.
    pub fn init<F: FnOnce() -> T>(&mut self, f: F)
        requires
            old(self)@ is Some || call_requires(f, ()),
        ensures
            old(self)@ is Some ==> final(self)@ == old(self)@,
            old(self)@ is None ==> (final(self)@ matches Some(v) && call_ensures(f, (), v)),
    {
        if self.inner.is_none() {
            self.inner = Some(f());
        }
    }

    /// Whether the one initialization has happened.
    pub fn is_initalized(&self) -> (r: bool)
        ensures
            r == (self@ is Some),
    {
        self.inner.is_some()
    }

    /// The held value, initializing it from `f` first when none is held.
    pub fn get_or_init<F: FnOnce() -> T, E>(&mut self, f: F) -> (r: &T)
        requires
            old(self)@ is Some || call_requires(f, ()),
        ensures
            final(self)@ matches Some(v) && v == *r,
            old(self)@ is Some ==> final(self)@ == old(self)@,
            old(self)@ is None ==> call_ensures(f, (), *r),
    {
        if self.inner.is_none() {
            self.inner = Some(f());
        }
        match &self.inner {
            Some(v) => v,
            None => vstd::pervasive::unreached(),
        }
    }

    /// The held value, initializing it from a fallible `f` first when none
    /// is held; `f`'s error is handed back and nothing is stored.
    pub fn get_or_try_init<F: FnOnce() -> Result<T, E>, E>(&mut self, f: F) -> (r: Result<&T, E>)
        requires
            old(self)@ is Some || call_requires(f, ()),
        ensures
            old(self)@ is Some ==> final(self)@ == old(self)@ && (r matches Ok(v) && old(
                self,
            )@ == Some(*v)),
            old(self)@ is None ==> match r {
                Ok(v) => final(self)@ == Some(*v) && call_ensures(f, (), Ok(*v)),
                Err(e) => final(self)@ is None && call_ensures(f, (), Err::<T, E>(e)),
            },
    {
        if self.inner.is_some() {
            match &self.inner {
                Some(v) => {
                    return Ok(v);
                },
                None => {
                    return vstd::pervasive::unreached();
                },
            }
        }
        match f() {
            Ok(val) => {
                self.inner = Some(val);
                match &self.inner {
                    Some(v) => Ok(v),
                    None => vstd::pervasive::unreached(),
                }
            },
            Err(e) => Err(e),
        }
    }

    /// The held value, if the initialization has happened.
    pub fn get(&self) -> (r: Option<&T>)
        ensures
            self@ is Some <==> (r matches Some(v) && self@ == Some(*v)),
            self@ is None ==> r is None,
    {
        self.inner.as_ref()
    }

    /// Stores the value, unless one is already held; then the new value is
    /// handed back unused.
    pub fn set(&mut self, val: T) -> (r: Result<(), T>)
        ensures
            old(self)@ is Some ==> r == Err::<(), T>(val) && final(self)@ == old(self)@,
            old(self)@ is None ==> r == Ok::<(), T>(()) && final(self)@ == Some(val),
    {
        if self.inner.is_some() {
            Err(val)
        } else {
            self.inner = Some(val);
            Ok(())
        }
    }

    /// Removes and returns the held value, leaving the cell empty.
    pub fn take(&mut self) -> (r: Option<T>)
        ensures
            r == old(self)@,
            final(self)@ is None,
    {
        self.inner.take()
    }

    /// Consumes the cell, yielding the held value if any.
    pub fn into_inner(self) -> (r: Option<T>)
        ensures
            r == self@,
    {
        self.inner
    }
}

} // verus!
