//! Bidirectional I/O wrappers.
//!
//! [`TokioIo`] wraps a runtime I/O value for Tokio/hyper consumers and
//! [`AsupersyncIo`] wraps a Tokio I/O value for the runtime. Both preserve
//! the wrapped value exactly.

use vstd::prelude::*;

pub mod read_buf;

verus! {

/// Wraps a runtime I/O type for hyper/Tokio-compatible consumers.
pub struct TokioIo<T> {
    inner: T,
}

impl<T> TokioIo<T> {
    /// The wrapped value.
    pub closed spec fn wrapped(self) -> T {
        self.inner
    }

    /// Wrap an I/O value.
    pub fn new(inner: T) -> (r: Self)
        ensures
            r.wrapped() == inner,
    {
        TokioIo { inner }
    }

    /// Get a reference to the inner I/O value.
    pub fn inner(&self) -> (r: &T)
        ensures
            *r == self.wrapped(),
    {
        &self.inner
    }

    /// Get a mutable reference to the inner I/O value.
    pub fn inner_mut(&mut self) -> (r: &mut T)
        ensures
            *r == old(self).wrapped(),
            final(self).wrapped() == *final(r),
    {
        &mut self.inner
    }

    /// Consume the wrapper and return the inner I/O value.
    pub fn into_inner(self) -> (r: T)
        ensures
            r == self.wrapped(),
    {
        self.inner
    }
}

/// Wraps a Tokio I/O type for the runtime's I/O traits.
pub struct AsupersyncIo<T> {
    inner: T,
}

impl<T> AsupersyncIo<T> {
    /// The wrapped value.
    pub closed spec fn wrapped(self) -> T {
        self.inner
    }

    /// Wrap an I/O value.
    pub fn new(inner: T) -> (r: Self)
        ensures
            r.wrapped() == inner,
    {
        AsupersyncIo { inner }
    }

    /// Get a reference to the inner I/O value.
    pub fn inner(&self) -> (r: &T)
        ensures
            *r == self.wrapped(),
    {
        &self.inner
    }

    /// Get a mutable reference to the inner I/O value.
    pub fn inner_mut(&mut self) -> (r: &mut T)
        ensures
            *r == old(self).wrapped(),
            final(self).wrapped() == *final(r),
    {
        &mut self.inner
    }

    /// Consume the wrapper and return the inner I/O value.
    pub fn into_inner(self) -> (r: T)
        ensures
            r == self.wrapped(),
    {
        self.inner
    }
}

} // verus!
