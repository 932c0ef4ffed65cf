//! Two synchronisation primitives, a poisoning mutex and a once-initialised
//! cell, written as verified state machines over an address-keyed wait/wake
//! platform. Every blocking point is a step that either makes progress or
//! tells the caller to wait on the primitive's address and try again; every
//! release tells the caller which waiters to wake.
pub mod sys;
pub mod mutex;
pub mod once;
pub mod contention;
