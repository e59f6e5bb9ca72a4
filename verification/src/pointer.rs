//! The pointer/handle storage strategy on its own: the handle records where
//! its block lives and dereferences through the allocator in O(1), with the
//! block's generation, kept right next to the value, gating every access.
//!
//! In an unsafe implementation the handle embeds the value's raw address
//! and recovers the generation header by subtracting a fixed offset.  Here
//! that recovery is an explicit, validated lookup guarded by the
//! allocator's own bookkeeping: each block is boxed and never moves, so its
//! slot number identifies its address for good.  The free list is a stack:
//! the most recently freed block is reused first.

use crate::errors::StaleHandleError;
use crate::model::{HandleView, SlotView, StoreView};
use vstd::prelude::*;

verus! {

/// One block: the generation header and, immediately with it, the value it
/// guards.  Boxed by the allocator so the pair never moves.
pub struct Entry<T> {
    generation: u32,
    value: Option<T>,
}

/// The handle: the block's location and the generation captured at
/// allocation time.  Only the allocator constructs these; one must never
/// be forged from an arbitrary location.
#[derive(Debug, Clone, Copy, PartialEq, Eq, Structural)]
pub struct EntityPtr {
    addr: usize,
    generation: u32,
}

impl View for EntityPtr {
    type V = HandleView;

    closed spec fn view(&self) -> HandleView {
        HandleView { index: self.addr as int, generation: self.generation as nat }
    }
}

/// A pointer-based allocator: each value lives in its own boxed block, and
/// freed blocks are reused most-recently-freed first.
pub struct Allocator<T> {
    entries: Vec<Box<Entry<T>>>,
    free: Vec<usize>,
}

impl<T> View for Allocator<T> {
    type V = StoreView<T>;

    closed spec fn view(&self) -> StoreView<T> {
        StoreView {
            slots: self.entries@.map_values(
                |e: Box<Entry<T>>|
                    SlotView { generation: (*e).generation as nat, item: (*e).value },
            ),
            free: self.free@.map_values(|x: usize| x as int),
        }
    }
}

impl<T> Default for Allocator<T> {
    /// An empty allocator: no blocks, nothing free.
    fn default() -> (r: Self)
        ensures
            r@ == StoreView::<T>::empty(),
            r@.wf(),
    {
        let r = Allocator { entries: Vec::new(), free: Vec::new() };
        proof {
            assert(r@.slots =~= StoreView::<T>::empty().slots);
            assert(r@.free =~= StoreView::<T>::empty().free);
        }
        r
    }
}

impl<T> Allocator<T> {
    /// Store a value: reuse the most recently freed block if one is
    /// vacant, otherwise allocate a fresh block.  The handle captures the
    /// block's current generation (0 only for a fresh block).
    pub fn new(&mut self, element: T) -> (h: EntityPtr)
        requires
            old(self)@.wf(),
        ensures
            final(self)@.wf(),
            h@ == old(self)@.alloc_result(old(self)@.free.len() - 1),
            final(self)@.is_live(h@),
            final(self)@.handle_ok(h@),
            final(self)@.item_at(h@) == Some(element),
            if old(self)@.free.len() == 0 {
                old(self)@.alloc_fresh(final(self)@, element)
            } else {
                old(self)@.alloc_reuse(final(self)@, old(self)@.free.len() - 1, element)
            },
            forall|g: HandleView| #[trigger]
                old(self)@.handle_ok(g) ==> final(self)@.handle_ok(g) && (final(self)@.is_live(
                    g,
                ) <==> old(self)@.is_live(g)),
    {
        if self.free.len() == 0 {
            let new_entry_index: usize = self.entries.len();
            let new_entry = Box::new(Entry { generation: 0, value: Some(element) });
            self.entries.push(new_entry);
            proof {
                assert(self@.slots =~= old(self)@.slots.push(
                    SlotView { generation: 0, item: Some(element) },
                ));
                crate::model::lemma_alloc_fresh(old(self)@, self@, element);
            }
            return EntityPtr { addr: new_entry_index, generation: 0 };
        }

        let next_free: usize = self.free.pop().unwrap();
        proof {
            let pre = old(self)@;
            assert(pre.in_range(pre.free[pre.free.len() - 1]));
        }
        let generation: u32 = self.entries[next_free].generation;
        self.entries[next_free] = Box::new(Entry { generation, value: Some(element) });

        proof {
            let pre = old(self)@;
            let k = pre.free.len() - 1;
            crate::model::lemma_remove_contains(pre.free, k);
            assert(self@.free =~= pre.free.remove(k));
            assert(self@.slots =~= pre.slots.update(
                next_free as int,
                SlotView {
                    generation: pre.slots[next_free as int].generation,
                    item: Some(element),
                },
            ));
            crate::model::lemma_alloc_reuse(pre, self@, k, element);
        }
        EntityPtr { addr: next_free, generation }
    }

    /// Free the block a live handle designates: the value is dropped
    /// exactly once, the generation header grows by one, and the block's
    /// address joins the free list so allocation can reuse it directly.
    /// On a stale handle this is a double free: it fails loudly with an
    /// error and changes nothing.
    pub fn free(&mut self, ptr: &EntityPtr) -> (r: Result<(), StaleHandleError>)
        requires
            old(self)@.wf(),
            old(self)@.handle_ok(ptr@),
            old(self)@.is_live(ptr@) ==> old(self)@.slots[ptr@.index].generation < u32::MAX,
        ensures
            final(self)@.wf(),
            r is Ok <==> old(self)@.is_live(ptr@),
            r is Ok ==> old(self)@.free_slot(final(self)@, ptr@.index)
                && !final(self)@.is_live(ptr@),
            r is Err ==> final(self)@ == old(self)@,
            forall|g: HandleView| #[trigger]
                old(self)@.handle_ok(g) ==> final(self)@.handle_ok(g),
    {
        if !ptr.is_live(self) {
            return Err(StaleHandleError);
        }

        self.free.push(ptr.addr);
        let generation: u32 = self.entries[ptr.addr].generation;
        self.entries[ptr.addr] = Box::new(Entry { generation: generation + 1, value: None });

        proof {
            let pre = old(self)@;
            let i0 = ptr@.index;
            assert(self@.free =~= pre.free.push(i0));
            assert(self@.slots =~= pre.slots.update(
                i0,
                SlotView { generation: (pre.slots[i0].generation + 1) as nat, item: None },
            ));
            crate::model::lemma_free_makes_dead(pre, self@, ptr@);
        }
        Ok(())
    }
}

impl EntityPtr {
    /// The block location this handle captured (what the address is in an
    /// unsafe pointer implementation).
    pub fn get_addr(&self) -> (a: usize)
        ensures
            a as int == self@.index,
    {
        self.addr
    }

    pub fn get_generation(&self) -> (g: u32)
        ensures
            g as nat == self@.generation,
    {
        self.generation
    }

    /// Liveness check: recover the generation header of the handle's block
    /// and compare it to the captured generation.  Valid only for handles
    /// this allocator produced.
    #[inline(always)]
    pub fn is_live<T>(&self, allocator: &Allocator<T>) -> (r: bool)
        requires
            self@.index < allocator@.slots.len(),
        ensures
            r == allocator@.is_live(self@),
    {
        self.generation == allocator.entries[self.addr].generation
    }

    /// Read the value this handle points at.  Dereferencing is permitted
    /// only while the handle is live; on a dead handle it would touch a
    /// dropped or reused value, so liveness is demanded here.
    pub fn deref<'a, T>(&self, allocator: &'a Allocator<T>) -> (r: &'a T)
        requires
            allocator@.wf(),
            allocator@.handle_ok(self@),
            allocator@.is_live(self@),
        ensures
            Some(*r) == allocator@.item_at(self@),
    {
        (&*allocator.entries[self.addr]).value.as_ref().unwrap()
    }

    /// Write access to the value this handle points at, permitted only
    /// while the handle is live.  Whatever the caller writes through the
    /// returned reference becomes the block's value; nothing else changes.
    pub fn deref_mut<'a, T>(&self, allocator: &'a mut Allocator<T>) -> (r: &'a mut T)
        requires
            old(allocator)@.wf(),
            old(allocator)@.handle_ok(self@),
            old(allocator)@.is_live(self@),
        ensures
            Some(*r) == old(allocator)@.item_at(self@),
            final(allocator)@.free == old(allocator)@.free,
            final(allocator)@.slots =~= old(allocator)@.slots.update(
                self@.index,
                SlotView { generation: self@.generation, item: Some(*final(r)) },
            ),
    {
        allocator.entries[self.addr].value.as_mut().unwrap()
    }
}

} // verus!
