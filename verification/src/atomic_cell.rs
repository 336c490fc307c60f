//! Atomic cells for small `Copy` values that pack into one primitive
//! atomic: a value type chooses its storage atomic and the conversions,
//! and the cell forwards the atomic operations through them.
//!
//! The stored values are shared, mutable state, so no single observation
//! can be promised anything; the cells carry no contracts beyond freedom
//! from panics.

use vstd::prelude::*;

use std::sync::atomic::AtomicU64;
use std::sync::atomic::Ordering;
use std::time::Duration;

verus! {

/// A primitive atomic and the integer it stores.
pub trait PrimitiveAtomic: Sized {
    type IntType: Copy;

    fn new(x: Self::IntType) -> Self;

    fn load(&self, ordering: Ordering) -> Self::IntType;

    fn store(&self, x: Self::IntType, ordering: Ordering);

    fn compare_exchange(
        &self,
        current: Self::IntType,
        new: Self::IntType,
        success: Ordering,
        failure: Ordering,
    ) -> Result<Self::IntType, Self::IntType>;

    fn compare_exchange_weak(
        &self,
        current: Self::IntType,
        new: Self::IntType,
        success: Ordering,
        failure: Ordering,
    ) -> Result<Self::IntType, Self::IntType>;

    fn swap(&self, x: Self::IntType, ordering: Ordering) -> Self::IntType;

    fn fetch_add(&self, x: Self::IntType, ordering: Ordering) -> Self::IntType;
}

impl PrimitiveAtomic for AtomicU64 {
    type IntType = u64;

    fn new(x: u64) -> AtomicU64 {
        AtomicU64::new(x)
    }

    fn load(&self, ordering: Ordering) -> u64 {
        AtomicU64::load(self, ordering)
    }

    fn store(&self, x: u64, ordering: Ordering) {
        AtomicU64::store(self, x, ordering)
    }

    fn compare_exchange(
        &self,
        current: u64,
        new: u64,
        success: Ordering,
        failure: Ordering,
    ) -> Result<u64, u64> {
        AtomicU64::compare_exchange(self, current, new, success, failure)
    }

    fn compare_exchange_weak(
        &self,
        current: u64,
        new: u64,
        success: Ordering,
        failure: Ordering,
    ) -> Result<u64, u64> {
        AtomicU64::compare_exchange_weak(self, current, new, success, failure)
    }

    fn swap(&self, x: u64, ordering: Ordering) -> u64 {
        AtomicU64::swap(self, x, ordering)
    }

    fn fetch_add(&self, x: u64, ordering: Ordering) -> u64 {
        AtomicU64::fetch_add(self, x, ordering)
    }
}

/// A value small enough to live in a primitive atomic, with its storage
/// conversions.
pub trait AtomicShim: Copy {
    type Storage: PrimitiveAtomic;

    fn to_storage(self) -> <Self::Storage as PrimitiveAtomic>::IntType;

    fn from_storage(x: <Self::Storage as PrimitiveAtomic>::IntType) -> Self;
}

/// A `Duration` stored as nanoseconds in a 64-bit atomic.  Durations
/// beyond the storage's range clamp to its maximum.
impl AtomicShim for Duration {
    type Storage = AtomicU64;

    fn to_storage(self) -> u64 {
        let n = self.as_nanos();
        if n > u64::MAX as u128 {
            u64::MAX
        } else {
            n as u64
        }
    }

    fn from_storage(x: u64) -> Duration {
        duration_from_nanos(x)
    }
}

/// Relies on `std::time::Duration::from_nanos`: the duration of the given
/// number of nanoseconds.
#[verifier::external_body]
fn duration_from_nanos(x: u64) -> Duration {
    Duration::from_nanos(x)
}

/// An atomic cell of a value that packs into one primitive atomic.
pub struct AtomicCell<T: AtomicShim> {
    inner: <T as AtomicShim>::Storage,
}

impl<T: AtomicShim> AtomicCell<T> {
    /// A cell holding `x`.
    #[inline]
    pub fn new(x: T) -> AtomicCell<T> {
        AtomicCell { inner: <T as AtomicShim>::Storage::new(x.to_storage()) }
    }

    /// The value held at some moment during the call.
    #[inline]
    pub fn load(&self, ordering: Ordering) -> T {
        T::from_storage(self.inner.load(ordering))
    }

    /// Replaces the held value.
    #[inline]
    pub fn store(&self, x: T, ordering: Ordering) {
        self.inner.store(x.to_storage(), ordering)
    }

    /// Replaces the held value, returning the one it displaced.
    #[inline]
    pub fn swap(&self, x: T, ordering: Ordering) -> T {
        T::from_storage(self.inner.swap(x.to_storage(), ordering))
    }

    /// Adds `x` in storage units, returning the previous value.
    #[inline]
    pub fn fetch_add(&self, x: T, ordering: Ordering) -> T {
        T::from_storage(self.inner.fetch_add(x.to_storage(), ordering))
    }
}

impl<T: AtomicShim + Eq> AtomicCell<T> {
    /// Replaces the held value when it currently converts to the same
    /// storage as `current`.
    #[inline]
    pub fn compare_exchange(
        &self,
        current: T,
        new: T,
        success: Ordering,
        failure: Ordering,
    ) -> Result<T, T> {
        match self.inner.compare_exchange(current.to_storage(), new.to_storage(), success, failure) {
            Ok(x) => Ok(T::from_storage(x)),
            Err(x) => Err(T::from_storage(x)),
        }
    }

    /// As `compare_exchange`, but allowed to fail spuriously.
    #[inline]
    pub fn compare_exchange_weak(
        &self,
        current: T,
        new: T,
        success: Ordering,
        failure: Ordering,
    ) -> Result<T, T> {
        match self.inner.compare_exchange_weak(
            current.to_storage(),
            new.to_storage(),
            success,
            failure,
        ) {
            Ok(x) => Ok(T::from_storage(x)),
            Err(x) => Err(T::from_storage(x)),
        }
    }
}

/// A cell of durations, stored as nanoseconds.
pub type AtomicDuration = AtomicCell<Duration>;

} // verus!
