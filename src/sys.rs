//! Values exchanged with the wait/wake platform.
use vstd::prelude::*;

verus! {

/// Opaque identity of a thread, as the platform hands it out. It is never
/// dereferenced; it only takes part in ownership comparisons.
#[derive(Clone, Copy, Debug, PartialEq, Eq, Structural)]
pub struct ThreadHandle {
    pub token: usize,
}

/// A span of time in the form the platform's timeout calls take.
#[derive(Clone, Copy, Debug, PartialEq, Eq, Structural)]
pub struct Duration {
    pub seconds: i64,
    pub nanos: u32,
}

/// The wake-up a step asks the platform to perform on the primitive's address.
#[derive(Clone, Copy, Debug, PartialEq, Eq, Structural)]
pub enum Signal {
    /// Wake at most one thread waiting on the address.
    One,
    /// Wake every thread waiting on the address.
    All,
}

} // verus!
