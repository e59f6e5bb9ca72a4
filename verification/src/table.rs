//! The pure bookkeeping table: it allocates and recycles abstract slot
//! numbers with no attached storage, and answers whether a handle is still
//! valid.
//!
//! The free list is a queue: the slot freed longest ago is reused first.

use crate::model::{HandleView, SlotView, StoreView};
use std::collections::VecDeque;
use vstd::prelude::*;

verus! {

/// A handle issued by [`GenerationalIndices`] (and by the value-array
/// allocators built on it): the slot number and the generation the slot had
/// when the handle was issued.  Handles are capabilities, freely copyable,
/// and only the allocator that issued one can say whether it is still live.
#[derive(Debug, Clone, Copy, PartialEq, Eq, Structural, Default)]
pub struct GenerationalIndex {
    index: usize,
    generation: u32,
}

impl View for GenerationalIndex {
    type V = HandleView;

    closed spec fn view(&self) -> HandleView {
        HandleView { index: self.index as int, generation: self.generation as nat }
    }
}

impl GenerationalIndex {
    /// Only this crate's allocators hand out handles; users receive them
    /// from `new`/`allocate` calls.
    pub(crate) fn from_parts(index: usize, generation: u32) -> (h: GenerationalIndex)
        ensures
            h@ == (HandleView { index: index as int, generation: generation as nat }),
    {
        GenerationalIndex { index, generation }
    }

    pub fn get_generation(&self) -> (g: u32)
        ensures
            g as nat == self@.generation,
    {
        self.generation
    }

    pub fn get_index(&self) -> (i: usize)
        ensures
            i as int == self@.index,
    {
        self.index
    }
}

/// The simplest allocator: one generation counter per slot and a free list,
/// with the values stored elsewhere by the caller.
#[derive(Debug)]
pub struct GenerationalIndices {
    indices: Vec<u32>,
    pub free: VecDeque<usize>,
}

impl View for GenerationalIndices {
    type V = StoreView<()>;

    /// The table stores no values, so a slot's payload is modelled as `()`:
    /// occupied exactly when the slot is off the free list.
    closed spec fn view(&self) -> StoreView<()> {
        StoreView {
            slots: Seq::new(
                self.indices@.len(),
                |i: int|
                    SlotView {
                        generation: self.indices@[i] as nat,
                        item: if self.free@.map_values(|x: usize| x as int).contains(i) {
                            None
                        } else {
                            Some(())
                        },
                    },
            ),
            free: self.free@.map_values(|x: usize| x as int),
        }
    }
}

impl Default for GenerationalIndices {
    /// An empty table: no slots, nothing free.
    fn default() -> (r: Self)
        ensures
            r@ == StoreView::<()>::empty(),
            r@.wf(),
    {
        let r = GenerationalIndices { indices: Vec::new(), free: VecDeque::new() };
        proof {
            assert(r@.slots =~= StoreView::<()>::empty().slots);
            assert(r@.free =~= StoreView::<()>::empty().free);
        }
        r
    }
}

impl GenerationalIndices {
    /// Allocate a slot number: reuse the longest-freed slot if one is
    /// vacant, otherwise append a fresh slot with generation 0.
    pub fn new(&mut self) -> (h: GenerationalIndex)
        requires
            old(self)@.wf(),
        ensures
            final(self)@.wf(),
            h@ == old(self)@.alloc_result(0),
            final(self)@.is_live(h@),
            final(self)@.handle_ok(h@),
            if old(self)@.free.len() == 0 {
                old(self)@.alloc_fresh(final(self)@, ())
            } else {
                old(self)@.alloc_reuse(final(self)@, 0, ())
            },
            forall|g: HandleView| #[trigger]
                old(self)@.handle_ok(g) ==> final(self)@.handle_ok(g) && (final(self)@.is_live(
                    g,
                ) <==> old(self)@.is_live(g)),
    {
        if self.free.len() == 0 {
            let next_index: usize = self.indices.len();
            self.indices.push(0);
            proof {
                assert(self@.slots =~= old(self)@.slots.push(
                    SlotView { generation: 0, item: Some(()) },
                ));
                crate::model::lemma_alloc_fresh(old(self)@, self@, ());
            }
            return GenerationalIndex::from_parts(next_index, 0);
        }

        let index: usize = self.free.pop_front().unwrap();
        proof {
            assert(old(self)@.in_range(old(self)@.free[0]));
        }
        let generation: u32 = self.indices[index];

        proof {
            let pre = old(self)@;
            assert(pre.in_range(pre.free[0]));
            crate::model::lemma_remove_contains(pre.free, 0);
            assert(self@.free =~= pre.free.remove(0));
            assert forall|i: int| 0 <= i < self@.slots.len() implies #[trigger] self@.slots[i]
                == pre.slots.update(
                index as int,
                SlotView { generation: pre.slots[index as int].generation, item: Some(()) },
            )[i] by {
                if i != index as int {
                    assert(pre.free.remove(0).contains(i) <==> pre.free.contains(i));
                }
            }
            assert(self@.slots =~= pre.slots.update(
                index as int,
                SlotView { generation: pre.slots[index as int].generation, item: Some(()) },
            ));
            crate::model::lemma_alloc_reuse(pre, self@, 0, ());
        }
        GenerationalIndex::from_parts(index, generation)
    }

    /// Liveness check: the handle's captured generation still matches the
    /// slot's current one.  O(1), no side effects.
    #[inline(always)]
    pub fn is_live(&self, index: &GenerationalIndex) -> (r: bool)
        requires
            index@.index < self@.slots.len(),
        ensures
            r == self@.is_live(index@),
    {
        index.generation == self.indices[index.index]
    }

    /// Free a slot number.  On a stale handle this reports `false` and does
    /// nothing: the table stores no value that a double free could corrupt,
    /// so the failed check is a normal, recoverable result at this layer.
    pub fn free(&mut self, index: &GenerationalIndex) -> (r: bool)
        requires
            old(self)@.wf(),
            old(self)@.handle_ok(index@),
            old(self)@.is_live(index@) ==> old(self)@.slots[index@.index].generation
                < u32::MAX,
        ensures
            final(self)@.wf(),
            r == old(self)@.is_live(index@),
            r ==> old(self)@.free_slot(final(self)@, index@.index) && !final(self)@.is_live(
                index@,
            ),
            !r ==> final(self)@ == old(self)@,
            forall|g: HandleView| #[trigger]
                old(self)@.handle_ok(g) ==> final(self)@.handle_ok(g),
    {
        if !self.is_live(index) {
            return false;
        }

        self.free.push_back(index.index);
        let bumped: u32 = self.indices[index.index] + 1;
        self.indices[index.index] = bumped;

        proof {
            let pre = old(self)@;
            let i0 = index@.index;
            assert(self@.free =~= pre.free.push(i0));
            assert forall|i: int| 0 <= i < self@.slots.len() implies #[trigger] self@.slots[i]
                == pre.slots.update(
                i0,
                SlotView { generation: (pre.slots[i0].generation + 1) as nat, item: None },
            )[i] by {
                crate::model::lemma_push_contains(pre.free, i0, i);
            }
            assert(self@.slots =~= pre.slots.update(
                i0,
                SlotView { generation: (pre.slots[i0].generation + 1) as nat, item: None },
            ));
            crate::model::lemma_free_makes_dead(pre, self@, index@);
        }
        true
    }
}

} // verus!
