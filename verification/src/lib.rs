//! Generational slot allocators.
//!
//! A slot allocator hands out lightweight handles to values it stores,
//! recycles freed storage in O(1), and detects use of a stale handle (one
//! whose slot has been freed and possibly reused) by pairing every slot with
//! a generation counter that grows by exactly one on every free.
//!
//! The crate offers one pure bookkeeping table ([`table::GenerationalIndices`])
//! and several storage strategies built on the same idea: value arrays keyed
//! by index ([`arrays`]), boxed per-slot storage and an in-place contiguous
//! array ([`memory`]), and a handle that stands for the address of its block
//! ([`pointer`]).  All of them share one abstract model, defined in
//! [`model`], and every public operation is specified as a transition of that
//! model.
//!
//! Generations are 32-bit counters that grow by one on every free and never
//! wrap: freeing is specified only while the slot's generation is below
//! `u32::MAX`, so within any lifetime that stays under four billion frees of
//! one slot, a stale handle can never collide with a reused slot.

pub mod arrays;
pub mod errors;
pub mod memory;
pub mod model;
pub mod pointer;
pub mod table;
