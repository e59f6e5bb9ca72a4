//! Memory allocators that recycle whole storage blocks the same way the
//! generational index table recycles slot numbers.
//!
//! Free lists here are stacks: the most recently freed block is reused
//! first.  [`GIABoxUninit`] and [`InPlaceAllocator`] hand out index
//! handles; [`BoxAllocator`] hands out an [`EntityPtr`], a handle that
//! stands for the address of its block (blocks are boxed and never move, so
//! the slot number identifies the block's address for good).

use crate::errors::StaleHandleError;
use crate::model::{HandleView, SlotView, StoreView};
use vstd::prelude::*;

verus! {

/// Index handle for the handle-based allocators of this module.
#[derive(Debug, Clone, Copy, PartialEq, Eq, Structural, Default)]
pub struct GenerationalIndex {
    index: usize,
    generation: u32,
}

impl View for GenerationalIndex {
    type V = HandleView;

    closed spec fn view(&self) -> HandleView {
        HandleView { index: self.index as int, generation: self.generation as nat }
    }
}

impl GenerationalIndex {
    pub fn get_generation(&self) -> (g: u32)
        ensures
            g as nat == self@.generation,
    {
        self.generation
    }

    pub fn get_index(&self) -> (i: usize)
        ensures
            i as int == self@.index,
    {
        self.index
    }
}

/// One entry of a [`GIABoxUninit`]: the generation and the boxed payload
/// (`None` = vacant).
pub struct GIABoxUninitEntry<T> {
    generation: u32,
    ptr: Box<Option<T>>,
}

/// A handle-based allocator whose entries box their values: users query it
/// with the handle to reach the stored value.
pub struct GIABoxUninit<T> {
    entries: Vec<GIABoxUninitEntry<T>>,
    free: Vec<usize>,
}

impl<T> View for GIABoxUninit<T> {
    type V = StoreView<T>;

    closed spec fn view(&self) -> StoreView<T> {
        StoreView {
            slots: self.entries@.map_values(
                |e: GIABoxUninitEntry<T>|
                    SlotView { generation: e.generation as nat, item: *e.ptr },
            ),
            free: self.free@.map_values(|x: usize| x as int),
        }
    }
}

impl<T> Default for GIABoxUninit<T> {
    /// An empty allocator: no entries, nothing free.
    fn default() -> (r: Self)
        ensures
            r@ == StoreView::<T>::empty(),
            r@.wf(),
    {
        let r = GIABoxUninit { entries: Vec::new(), free: Vec::new() };
        proof {
            assert(r@.slots =~= StoreView::<T>::empty().slots);
            assert(r@.free =~= StoreView::<T>::empty().free);
        }
        r
    }
}

impl<T> GIABoxUninit<T> {
    /// Store a value: reuse the most recently freed entry if one is vacant,
    /// otherwise append a fresh one.
    pub fn new(&mut self, element: T) -> (h: GenerationalIndex)
        requires
            old(self)@.wf(),
        ensures
            final(self)@.wf(),
            h@ == old(self)@.alloc_result(old(self)@.free.len() - 1),
            final(self)@.is_live(h@),
            final(self)@.handle_ok(h@),
            final(self)@.item_at(h@) == Some(element),
            if old(self)@.free.len() == 0 {
                old(self)@.alloc_fresh(final(self)@, element)
            } else {
                old(self)@.alloc_reuse(final(self)@, old(self)@.free.len() - 1, element)
            },
            forall|g: HandleView| #[trigger]
                old(self)@.handle_ok(g) ==> final(self)@.handle_ok(g) && (final(self)@.is_live(
                    g,
                ) <==> old(self)@.is_live(g)),
    {
        if self.free.len() == 0 {
            let new_entry_index: usize = self.entries.len();
            let new_entry = GIABoxUninitEntry { generation: 0, ptr: Box::new(Some(element)) };
            self.entries.push(new_entry);
            proof {
                assert(self@.slots =~= old(self)@.slots.push(
                    SlotView { generation: 0, item: Some(element) },
                ));
                crate::model::lemma_alloc_fresh(old(self)@, self@, element);
            }
            return GenerationalIndex { index: new_entry_index, generation: 0 };
        }

        let next_free: usize = self.free.pop().unwrap();
        proof {
            let pre = old(self)@;
            assert(pre.in_range(pre.free[pre.free.len() - 1]));
        }
        let entry = &mut self.entries[next_free];
        let generation: u32 = entry.generation;
        entry.ptr = Box::new(Some(element));

        proof {
            let pre = old(self)@;
            let k = pre.free.len() - 1;
            crate::model::lemma_remove_contains(pre.free, k);
            assert(self@.free =~= pre.free.remove(k));
            assert(self@.slots =~= pre.slots.update(
                next_free as int,
                SlotView {
                    generation: pre.slots[next_free as int].generation,
                    item: Some(element),
                },
            ));
            crate::model::lemma_alloc_reuse(pre, self@, k, element);
        }
        GenerationalIndex { index: next_free, generation }
    }

    /// Liveness check: the handle's captured generation still matches the
    /// entry's current one.
    #[inline(always)]
    pub fn is_live(&self, index: &GenerationalIndex) -> (r: bool)
        requires
            index@.index < self@.slots.len(),
        ensures
            r == self@.is_live(index@),
    {
        index.generation == self.entries[index.index].generation
    }

    /// Look the value up.  `None` on a stale handle is a normal query
    /// result, not an error.
    pub fn get(&self, index: &GenerationalIndex) -> (r: Option<&T>)
        requires
            self@.wf(),
            self@.handle_ok(index@),
        ensures
            r is Some <==> self@.is_live(index@),
            r matches Some(v) ==> self@.item_at(index@) == Some(*v),
    {
        if !self.is_live(index) {
            return None;
        }

        (&*self.entries[index.index].ptr).as_ref()
    }

    /// Look the value up for writing, under the same liveness gate as
    /// [`Self::get`].  Whatever the caller writes through the returned
    /// reference becomes the entry's value; nothing else changes.
    pub fn get_mut(&mut self, index: &GenerationalIndex) -> (r: Option<&mut T>)
        requires
            old(self)@.wf(),
            old(self)@.handle_ok(index@),
        ensures
            r is Some <==> old(self)@.is_live(index@),
            r is None ==> final(self)@ == old(self)@,
            r is Some ==> old(self)@.item_at(index@) == Some(*r.unwrap()),
            r is Some ==> final(self)@.free == old(self)@.free,
            r is Some ==> final(self)@.slots =~= old(self)@.slots.update(
                index@.index,
                SlotView { generation: index@.generation, item: Some(*final(r.unwrap())) },
            ),
    {
        if !self.is_live(index) {
            return None;
        }

        (&mut *self.entries[index.index].ptr).as_mut()
    }

    /// Free the entry a live handle designates: the value is dropped
    /// exactly once.  On a stale handle this is a double free: it fails
    /// loudly with an error and changes nothing.
    pub fn free(&mut self, index: &GenerationalIndex) -> (r: Result<(), StaleHandleError>)
        requires
            old(self)@.wf(),
            old(self)@.handle_ok(index@),
            old(self)@.is_live(index@) ==> old(self)@.slots[index@.index].generation
                < u32::MAX,
        ensures
            final(self)@.wf(),
            r is Ok <==> old(self)@.is_live(index@),
            r is Ok ==> old(self)@.free_slot(final(self)@, index@.index)
                && !final(self)@.is_live(index@),
            r is Err ==> final(self)@ == old(self)@,
            forall|g: HandleView| #[trigger]
                old(self)@.handle_ok(g) ==> final(self)@.handle_ok(g),
    {
        if !self.is_live(index) {
            return Err(StaleHandleError);
        }

        self.free.push(index.index);
        let entry = &mut self.entries[index.index];
        entry.generation = entry.generation + 1;
        entry.ptr = Box::new(None);

        proof {
            let pre = old(self)@;
            let i0 = index@.index;
            assert(self@.free =~= pre.free.push(i0));
            assert(self@.slots =~= pre.slots.update(
                i0,
                SlotView { generation: (pre.slots[i0].generation + 1) as nat, item: None },
            ));
            crate::model::lemma_free_makes_dead(pre, self@, index@);
        }
        Ok(())
    }
}

/// One block of a [`BoxAllocator`]: the generation that gates access and
/// the payload it guards, boxed together so the pair never moves.
pub struct Entry<T> {
    generation: u32,
    value: Option<T>,
}

/// The handle of a [`BoxAllocator`]: it records where its block lives (the
/// slot number stands for the block's address, which never changes) and the
/// generation captured at allocation.  Only the allocator constructs these;
/// one must never be forged from an arbitrary location.
#[derive(Debug, Clone, Copy, PartialEq, Eq, Structural)]
pub struct EntityPtr {
    addr: usize,
    generation: u32,
}

impl View for EntityPtr {
    type V = HandleView;

    closed spec fn view(&self) -> HandleView {
        HandleView { index: self.addr as int, generation: self.generation as nat }
    }
}

/// A pointer-style allocator: each value lives in its own boxed block, so a
/// handle can reach it directly, without an index lookup, and blocks are
/// recycled most-recently-freed first.
pub struct BoxAllocator<T> {
    entries: Vec<Box<Entry<T>>>,
    free: Vec<usize>,
}

impl<T> View for BoxAllocator<T> {
    type V = StoreView<T>;

    closed spec fn view(&self) -> StoreView<T> {
        StoreView {
            slots: self.entries@.map_values(
                |e: Box<Entry<T>>|
                    SlotView { generation: (*e).generation as nat, item: (*e).value },
            ),
            free: self.free@.map_values(|x: usize| x as int),
        }
    }
}

impl<T> Default for BoxAllocator<T> {
    /// An empty allocator: no blocks, nothing free.
    fn default() -> (r: Self)
        ensures
            r@ == StoreView::<T>::empty(),
            r@.wf(),
    {
        let r = BoxAllocator { entries: Vec::new(), free: Vec::new() };
        proof {
            assert(r@.slots =~= StoreView::<T>::empty().slots);
            assert(r@.free =~= StoreView::<T>::empty().free);
        }
        r
    }
}

impl<T> BoxAllocator<T> {
    /// Store a value: reuse the most recently freed block if one is vacant,
    /// otherwise allocate a fresh block.
    pub fn new(&mut self, element: T) -> (h: EntityPtr)
        requires
            old(self)@.wf(),
        ensures
            final(self)@.wf(),
            h@ == old(self)@.alloc_result(old(self)@.free.len() - 1),
            final(self)@.is_live(h@),
            final(self)@.handle_ok(h@),
            final(self)@.item_at(h@) == Some(element),
            if old(self)@.free.len() == 0 {
                old(self)@.alloc_fresh(final(self)@, element)
            } else {
                old(self)@.alloc_reuse(final(self)@, old(self)@.free.len() - 1, element)
            },
            forall|g: HandleView| #[trigger]
                old(self)@.handle_ok(g) ==> final(self)@.handle_ok(g) && (final(self)@.is_live(
                    g,
                ) <==> old(self)@.is_live(g)),
    {
        if self.free.len() == 0 {
            let new_entry_index: usize = self.entries.len();
            let new_entry = Box::new(Entry { generation: 0, value: Some(element) });
            self.entries.push(new_entry);
            proof {
                assert(self@.slots =~= old(self)@.slots.push(
                    SlotView { generation: 0, item: Some(element) },
                ));
                crate::model::lemma_alloc_fresh(old(self)@, self@, element);
            }
            return EntityPtr { addr: new_entry_index, generation: 0 };
        }

        let next_free: usize = self.free.pop().unwrap();
        proof {
            let pre = old(self)@;
            assert(pre.in_range(pre.free[pre.free.len() - 1]));
        }
        let generation: u32 = self.entries[next_free].generation;
        self.entries[next_free] = Box::new(Entry { generation, value: Some(element) });

        proof {
            let pre = old(self)@;
            let k = pre.free.len() - 1;
            crate::model::lemma_remove_contains(pre.free, k);
            assert(self@.free =~= pre.free.remove(k));
            assert(self@.slots =~= pre.slots.update(
                next_free as int,
                SlotView {
                    generation: pre.slots[next_free as int].generation,
                    item: Some(element),
                },
            ));
            crate::model::lemma_alloc_reuse(pre, self@, k, element);
        }
        EntityPtr { addr: next_free, generation }
    }

    /// Free the block a live handle designates: the value is dropped
    /// exactly once, the block's generation grows by one, and the block's
    /// address joins the free list for direct reuse.  On a stale handle
    /// this is a double free: it fails loudly with an error and changes
    /// nothing.
    pub fn free(&mut self, ptr: &EntityPtr) -> (r: Result<(), StaleHandleError>)
        requires
            old(self)@.wf(),
            old(self)@.handle_ok(ptr@),
            old(self)@.is_live(ptr@) ==> old(self)@.slots[ptr@.index].generation < u32::MAX,
        ensures
            final(self)@.wf(),
            r is Ok <==> old(self)@.is_live(ptr@),
            r is Ok ==> old(self)@.free_slot(final(self)@, ptr@.index)
                && !final(self)@.is_live(ptr@),
            r is Err ==> final(self)@ == old(self)@,
            forall|g: HandleView| #[trigger]
                old(self)@.handle_ok(g) ==> final(self)@.handle_ok(g),
    {
        if !ptr.is_live(self) {
            return Err(StaleHandleError);
        }

        self.free.push(ptr.addr);
        let generation: u32 = self.entries[ptr.addr].generation;
        self.entries[ptr.addr] = Box::new(Entry { generation: generation + 1, value: None });

        proof {
            let pre = old(self)@;
            let i0 = ptr@.index;
            assert(self@.free =~= pre.free.push(i0));
            assert(self@.slots =~= pre.slots.update(
                i0,
                SlotView { generation: (pre.slots[i0].generation + 1) as nat, item: None },
            ));
            crate::model::lemma_free_makes_dead(pre, self@, ptr@);
        }
        Ok(())
    }
}

impl EntityPtr {
    /// The block location this handle captured (what the address is in an
    /// unsafe pointer implementation).
    pub fn get_addr(&self) -> (a: usize)
        ensures
            a as int == self@.index,
    {
        self.addr
    }

    pub fn get_generation(&self) -> (g: u32)
        ensures
            g as nat == self@.generation,
    {
        self.generation
    }

    /// Liveness check: recover the handle's block inside its allocator and
    /// compare the block's generation to the captured one.
    #[inline(always)]
    pub fn is_live<T>(&self, allocator: &BoxAllocator<T>) -> (r: bool)
        requires
            self@.index < allocator@.slots.len(),
        ensures
            r == allocator@.is_live(self@),
    {
        self.generation == allocator.entries[self.addr].generation
    }

    /// Read the value this handle points at.  Dereferencing is permitted
    /// only while the handle is live.
    pub fn deref<'a, T>(&self, allocator: &'a BoxAllocator<T>) -> (r: &'a T)
        requires
            allocator@.wf(),
            allocator@.handle_ok(self@),
            allocator@.is_live(self@),
        ensures
            Some(*r) == allocator@.item_at(self@),
    {
        (&*allocator.entries[self.addr]).value.as_ref().unwrap()
    }

    /// Write access to the value this handle points at, permitted only
    /// while the handle is live.  Whatever the caller writes through the
    /// returned reference becomes the block's value; nothing else changes.
    pub fn deref_mut<'a, T>(&self, allocator: &'a mut BoxAllocator<T>) -> (r: &'a mut T)
        requires
            old(allocator)@.wf(),
            old(allocator)@.handle_ok(self@),
            old(allocator)@.is_live(self@),
        ensures
            Some(*r) == old(allocator)@.item_at(self@),
            final(allocator)@.free == old(allocator)@.free,
            final(allocator)@.slots =~= old(allocator)@.slots.update(
                self@.index,
                SlotView { generation: self@.generation, item: Some(*final(r)) },
            ),
    {
        allocator.entries[self.addr].value.as_mut().unwrap()
    }
}

/// One slot of an [`InPlaceAllocator`]: the payload sits directly in the
/// backing array, so all values are contiguous in memory.
#[derive(Debug)]
struct InPlaceAllocEntry<T> {
    value: Option<T>,
    generation: u32,
}

/// The contiguous storage strategy: every value lives in one growable
/// array, handles are indices (the array may move when it grows, so an
/// address would go stale), and lookups index directly.
#[derive(Debug)]
pub struct InPlaceAllocator<T> {
    entries: Vec<InPlaceAllocEntry<T>>,
    free: Vec<usize>,
}

impl<T> View for InPlaceAllocator<T> {
    type V = StoreView<T>;

    closed spec fn view(&self) -> StoreView<T> {
        StoreView {
            slots: self.entries@.map_values(
                |e: InPlaceAllocEntry<T>|
                    SlotView { generation: e.generation as nat, item: e.value },
            ),
            free: self.free@.map_values(|x: usize| x as int),
        }
    }
}

impl<T> Default for InPlaceAllocator<T> {
    /// An empty allocator: no slots, nothing free.
    fn default() -> (r: Self)
        ensures
            r@ == StoreView::<T>::empty(),
            r@.wf(),
    {
        let r = InPlaceAllocator { entries: Vec::new(), free: Vec::new() };
        proof {
            assert(r@.slots =~= StoreView::<T>::empty().slots);
            assert(r@.free =~= StoreView::<T>::empty().free);
        }
        r
    }
}

impl<T> InPlaceAllocator<T> {
    /// Store a value: reuse the most recently freed slot if one is vacant,
    /// otherwise append a fresh slot.
    pub fn new(&mut self, element: T) -> (h: GenerationalIndex)
        requires
            old(self)@.wf(),
        ensures
            final(self)@.wf(),
            h@ == old(self)@.alloc_result(old(self)@.free.len() - 1),
            final(self)@.is_live(h@),
            final(self)@.handle_ok(h@),
            final(self)@.item_at(h@) == Some(element),
            if old(self)@.free.len() == 0 {
                old(self)@.alloc_fresh(final(self)@, element)
            } else {
                old(self)@.alloc_reuse(final(self)@, old(self)@.free.len() - 1, element)
            },
            forall|g: HandleView| #[trigger]
                old(self)@.handle_ok(g) ==> final(self)@.handle_ok(g) && (final(self)@.is_live(
                    g,
                ) <==> old(self)@.is_live(g)),
    {
        if self.free.len() == 0 {
            let new_entry_index: usize = self.entries.len();
            let new_entry = InPlaceAllocEntry { value: Some(element), generation: 0 };
            self.entries.push(new_entry);
            proof {
                assert(self@.slots =~= old(self)@.slots.push(
                    SlotView { generation: 0, item: Some(element) },
                ));
                crate::model::lemma_alloc_fresh(old(self)@, self@, element);
            }
            return GenerationalIndex { index: new_entry_index, generation: 0 };
        }

        let next_free: usize = self.free.pop().unwrap();
        proof {
            let pre = old(self)@;
            assert(pre.in_range(pre.free[pre.free.len() - 1]));
        }
        let entry = &mut self.entries[next_free];
        let generation: u32 = entry.generation;
        entry.value = Some(element);

        proof {
            let pre = old(self)@;
            let k = pre.free.len() - 1;
            crate::model::lemma_remove_contains(pre.free, k);
            assert(self@.free =~= pre.free.remove(k));
            assert(self@.slots =~= pre.slots.update(
                next_free as int,
                SlotView {
                    generation: pre.slots[next_free as int].generation,
                    item: Some(element),
                },
            ));
            crate::model::lemma_alloc_reuse(pre, self@, k, element);
        }
        GenerationalIndex { index: next_free, generation }
    }

    /// Liveness check: the handle's captured generation still matches the
    /// slot's current one.
    #[inline(always)]
    pub fn is_live(&self, index: &GenerationalIndex) -> (r: bool)
        requires
            index@.index < self@.slots.len(),
        ensures
            r == self@.is_live(index@),
    {
        index.generation == self.entries[index.index].generation
    }

    /// Direct access to the stored value.  Callers of this strategy are
    /// expected to have validated liveness already; handing in a stale
    /// handle is misuse, not a benign query, so liveness is demanded here
    /// rather than answered with an absent result.
    pub fn get(&mut self, index: &GenerationalIndex) -> (r: &mut T)
        requires
            old(self)@.wf(),
            old(self)@.handle_ok(index@),
            old(self)@.is_live(index@),
        ensures
            Some(*r) == old(self)@.item_at(index@),
            final(self)@.free == old(self)@.free,
            final(self)@.slots =~= old(self)@.slots.update(
                index@.index,
                SlotView { generation: index@.generation, item: Some(*final(r)) },
            ),
    {
        self.entries[index.index].value.as_mut().unwrap()
    }

    /// Free the slot a live handle designates: the value is dropped in
    /// place.  On a stale handle this is a double free: it fails loudly
    /// with an error and changes nothing.
    pub fn free(&mut self, index: &GenerationalIndex) -> (r: Result<(), StaleHandleError>)
        requires
            old(self)@.wf(),
            old(self)@.handle_ok(index@),
            old(self)@.is_live(index@) ==> old(self)@.slots[index@.index].generation
                < u32::MAX,
        ensures
            final(self)@.wf(),
            r is Ok <==> old(self)@.is_live(index@),
            r is Ok ==> old(self)@.free_slot(final(self)@, index@.index)
                && !final(self)@.is_live(index@),
            r is Err ==> final(self)@ == old(self)@,
            forall|g: HandleView| #[trigger]
                old(self)@.handle_ok(g) ==> final(self)@.handle_ok(g),
    {
        if !self.is_live(index) {
            return Err(StaleHandleError);
        }

        self.free.push(index.index);
        let entry = &mut self.entries[index.index];
        entry.generation = entry.generation + 1;
        entry.value = None;

        proof {
            let pre = old(self)@;
            let i0 = index@.index;
            assert(self@.free =~= pre.free.push(i0));
            assert(self@.slots =~= pre.slots.update(
                i0,
                SlotView { generation: (pre.slots[i0].generation + 1) as nat, item: None },
            ));
            crate::model::lemma_free_makes_dead(pre, self@, index@);
        }
        Ok(())
    }
}

} // verus!
