//! Value-array storage strategies: a generational index table paired with
//! one value slot per entry, exposed through lookup calls.
//!
//! All three allocators here behave alike and share the handle type of the
//! table; they differ in how an entry holds its value (inline, or behind a
//! box).  Their free lists are queues: the slot freed longest ago is reused
//! first.

use crate::errors::StaleHandleError;
use crate::model::{HandleView, SlotView, StoreView};
use crate::table::GenerationalIndex;
use std::collections::VecDeque;
use vstd::prelude::*;

verus! {

/// One slot of a [`GenerationalIndexArray`]: the payload (`None` = vacant)
/// and the slot's current generation.
#[derive(Debug)]
pub struct GenerationalArrayEntry<T> {
    item: Option<T>,
    generation: u32,
}

/// A value-array allocator: stores the values it hands out handles for, and
/// gates every access on the handle still being live.
#[derive(Debug)]
pub struct GenerationalIndexArray<T> {
    elements: Vec<GenerationalArrayEntry<T>>,
    free: VecDeque<usize>,
}

impl<T> View for GenerationalIndexArray<T> {
    type V = StoreView<T>;

    closed spec fn view(&self) -> StoreView<T> {
        StoreView {
            slots: self.elements@.map_values(
                |e: GenerationalArrayEntry<T>|
                    SlotView { generation: e.generation as nat, item: e.item },
            ),
            free: self.free@.map_values(|x: usize| x as int),
        }
    }
}

impl<T> Default for GenerationalIndexArray<T> {
    /// An empty allocator: no slots, nothing free.
    fn default() -> (r: Self)
        ensures
            r@ == StoreView::<T>::empty(),
            r@.wf(),
    {
        let r = GenerationalIndexArray { elements: Vec::new(), free: VecDeque::new() };
        proof {
            assert(r@.slots =~= StoreView::<T>::empty().slots);
            assert(r@.free =~= StoreView::<T>::empty().free);
        }
        r
    }
}

impl<T> GenerationalIndexArray<T> {
    /// Store a value: reuse the longest-freed slot if one is vacant,
    /// otherwise append a fresh slot.  The returned handle is live and reads
    /// back exactly the stored value.
    pub fn new(&mut self, element: T) -> (h: GenerationalIndex)
        requires
            old(self)@.wf(),
        ensures
            final(self)@.wf(),
            h@ == old(self)@.alloc_result(0),
            final(self)@.is_live(h@),
            final(self)@.handle_ok(h@),
            final(self)@.item_at(h@) == Some(element),
            if old(self)@.free.len() == 0 {
                old(self)@.alloc_fresh(final(self)@, element)
            } else {
                old(self)@.alloc_reuse(final(self)@, 0, element)
            },
            forall|g: HandleView| #[trigger]
                old(self)@.handle_ok(g) ==> final(self)@.handle_ok(g) && (final(self)@.is_live(
                    g,
                ) <==> old(self)@.is_live(g)),
    {
        if self.free.len() == 0 {
            let next_index: usize = self.elements.len();
            let entry = GenerationalArrayEntry { generation: 0, item: Some(element) };
            self.elements.push(entry);
            proof {
                assert(self@.slots =~= old(self)@.slots.push(
                    SlotView { generation: 0, item: Some(element) },
                ));
                crate::model::lemma_alloc_fresh(old(self)@, self@, element);
            }
            return GenerationalIndex::from_parts(next_index, 0);
        }

        let index: usize = self.free.pop_front().unwrap();
        proof {
            assert(old(self)@.in_range(old(self)@.free[0]));
        }
        let entry = &mut self.elements[index];
        let generation: u32 = entry.generation;
        entry.item = Some(element);

        proof {
            let pre = old(self)@;
            crate::model::lemma_remove_contains(pre.free, 0);
            assert(self@.free =~= pre.free.remove(0));
            assert(self@.slots =~= pre.slots.update(
                index as int,
                SlotView { generation: pre.slots[index as int].generation, item: Some(element) },
            ));
            crate::model::lemma_alloc_reuse(pre, self@, 0, element);
        }
        GenerationalIndex::from_parts(index, generation)
    }

    /// Liveness check: the handle's captured generation still matches the
    /// slot's current one.
    #[inline(always)]
    pub fn is_live(&self, index: &GenerationalIndex) -> (r: bool)
        requires
            index@.index < self@.slots.len(),
        ensures
            r == self@.is_live(index@),
    {
        index.get_generation() == self.elements[index.get_index()].generation
    }

    /// Free the slot a live handle designates: the value is dropped, the
    /// generation grows by one, the slot joins the free list.  On a stale
    /// handle this is a double free: it fails loudly with an error and
    /// changes nothing.
    pub fn free(&mut self, index: &GenerationalIndex) -> (r: Result<(), StaleHandleError>)
        requires
            old(self)@.wf(),
            old(self)@.handle_ok(index@),
            old(self)@.is_live(index@) ==> old(self)@.slots[index@.index].generation
                < u32::MAX,
        ensures
            final(self)@.wf(),
            r is Ok <==> old(self)@.is_live(index@),
            r is Ok ==> old(self)@.free_slot(final(self)@, index@.index)
                && !final(self)@.is_live(index@),
            r is Err ==> final(self)@ == old(self)@,
            forall|g: HandleView| #[trigger]
                old(self)@.handle_ok(g) ==> final(self)@.handle_ok(g),
    {
        if !self.is_live(index) {
            return Err(StaleHandleError);
        }

        self.free.push_back(index.get_index());
        let entry = &mut self.elements[index.get_index()];
        entry.generation = entry.generation + 1;
        entry.item = None;

        proof {
            let pre = old(self)@;
            let i0 = index@.index;
            assert(self@.free =~= pre.free.push(i0));
            assert(self@.slots =~= pre.slots.update(
                i0,
                SlotView { generation: (pre.slots[i0].generation + 1) as nat, item: None },
            ));
            crate::model::lemma_free_makes_dead(pre, self@, index@);
        }
        Ok(())
    }

    /// Look the value up.  On a live handle this returns a reference to the
    /// stored value; on a stale handle it returns `None` — a normal query
    /// result, not an error.
    pub fn get(&self, index: &GenerationalIndex) -> (r: Option<&T>)
        requires
            self@.wf(),
            self@.handle_ok(index@),
        ensures
            r is Some <==> self@.is_live(index@),
            r matches Some(v) ==> self@.item_at(index@) == Some(*v),
    {
        if !self.is_live(index) {
            return None;
        }

        self.elements[index.get_index()].item.as_ref()
    }

    /// Look the value up for writing, under the same liveness gate as
    /// [`Self::get`].  Whatever the caller writes through the returned
    /// reference becomes the slot's value; nothing else changes.
    pub fn get_mut(&mut self, index: &GenerationalIndex) -> (r: Option<&mut T>)
        requires
            old(self)@.wf(),
            old(self)@.handle_ok(index@),
        ensures
            r is Some <==> old(self)@.is_live(index@),
            r is None ==> final(self)@ == old(self)@,
            r is Some ==> old(self)@.item_at(index@) == Some(*r.unwrap()),
            r is Some ==> final(self)@.free == old(self)@.free,
            r is Some ==> final(self)@.slots =~= old(self)@.slots.update(
                index@.index,
                SlotView { generation: index@.generation, item: Some(*final(r.unwrap())) },
            ),
    {
        if !self.is_live(index) {
            return None;
        }

        self.elements[index.get_index()].item.as_mut()
    }
}

/// One slot of a [`GenerationalIndexArrayCell`]: the payload lives behind a
/// box, so growing the element array moves only pointers, not values.
pub struct GenerationalArrayEntryCell<T> {
    item: Box<Option<T>>,
    generation: u32,
}

/// A value-array allocator whose entries box their values: the same
/// contract as [`GenerationalIndexArray`].
pub struct GenerationalIndexArrayCell<T> {
    elements: Vec<GenerationalArrayEntryCell<T>>,
    free: VecDeque<usize>,
}

impl<T> View for GenerationalIndexArrayCell<T> {
    type V = StoreView<T>;

    closed spec fn view(&self) -> StoreView<T> {
        StoreView {
            slots: self.elements@.map_values(
                |e: GenerationalArrayEntryCell<T>|
                    SlotView { generation: e.generation as nat, item: *e.item },
            ),
            free: self.free@.map_values(|x: usize| x as int),
        }
    }
}

impl<T> Default for GenerationalIndexArrayCell<T> {
    /// An empty allocator: no slots, nothing free.
    fn default() -> (r: Self)
        ensures
            r@ == StoreView::<T>::empty(),
            r@.wf(),
    {
        let r = GenerationalIndexArrayCell { elements: Vec::new(), free: VecDeque::new() };
        proof {
            assert(r@.slots =~= StoreView::<T>::empty().slots);
            assert(r@.free =~= StoreView::<T>::empty().free);
        }
        r
    }
}

impl<T> GenerationalIndexArrayCell<T> {
    /// Store a value: reuse the longest-freed slot if one is vacant,
    /// otherwise append a fresh slot.
    pub fn new(&mut self, element: T) -> (h: GenerationalIndex)
        requires
            old(self)@.wf(),
        ensures
            final(self)@.wf(),
            h@ == old(self)@.alloc_result(0),
            final(self)@.is_live(h@),
            final(self)@.handle_ok(h@),
            final(self)@.item_at(h@) == Some(element),
            if old(self)@.free.len() == 0 {
                old(self)@.alloc_fresh(final(self)@, element)
            } else {
                old(self)@.alloc_reuse(final(self)@, 0, element)
            },
            forall|g: HandleView| #[trigger]
                old(self)@.handle_ok(g) ==> final(self)@.handle_ok(g) && (final(self)@.is_live(
                    g,
                ) <==> old(self)@.is_live(g)),
    {
        if self.free.len() == 0 {
            let next_index: usize = self.elements.len();
            let entry = GenerationalArrayEntryCell {
                generation: 0,
                item: Box::new(Some(element)),
            };
            self.elements.push(entry);
            proof {
                assert(self@.slots =~= old(self)@.slots.push(
                    SlotView { generation: 0, item: Some(element) },
                ));
                crate::model::lemma_alloc_fresh(old(self)@, self@, element);
            }
            return GenerationalIndex::from_parts(next_index, 0);
        }

        let index: usize = self.free.pop_front().unwrap();
        proof {
            assert(old(self)@.in_range(old(self)@.free[0]));
        }
        let entry = &mut self.elements[index];
        let generation: u32 = entry.generation;
        entry.item = Box::new(Some(element));

        proof {
            let pre = old(self)@;
            crate::model::lemma_remove_contains(pre.free, 0);
            assert(self@.free =~= pre.free.remove(0));
            assert(self@.slots =~= pre.slots.update(
                index as int,
                SlotView { generation: pre.slots[index as int].generation, item: Some(element) },
            ));
            crate::model::lemma_alloc_reuse(pre, self@, 0, element);
        }
        GenerationalIndex::from_parts(index, generation)
    }

    /// Liveness check: the handle's captured generation still matches the
    /// slot's current one.
    #[inline(always)]
    pub fn is_live(&self, index: &GenerationalIndex) -> (r: bool)
        requires
            index@.index < self@.slots.len(),
        ensures
            r == self@.is_live(index@),
    {
        index.get_generation() == self.elements[index.get_index()].generation
    }

    /// Free the slot a live handle designates.  On a stale handle this is a
    /// double free: it fails loudly with an error and changes nothing.
    pub fn free(&mut self, index: &GenerationalIndex) -> (r: Result<(), StaleHandleError>)
        requires
            old(self)@.wf(),
            old(self)@.handle_ok(index@),
            old(self)@.is_live(index@) ==> old(self)@.slots[index@.index].generation
                < u32::MAX,
        ensures
            final(self)@.wf(),
            r is Ok <==> old(self)@.is_live(index@),
            r is Ok ==> old(self)@.free_slot(final(self)@, index@.index)
                && !final(self)@.is_live(index@),
            r is Err ==> final(self)@ == old(self)@,
            forall|g: HandleView| #[trigger]
                old(self)@.handle_ok(g) ==> final(self)@.handle_ok(g),
    {
        if !self.is_live(index) {
            return Err(StaleHandleError);
        }

        self.free.push_back(index.get_index());
        let entry = &mut self.elements[index.get_index()];
        entry.generation = entry.generation + 1;
        entry.item = Box::new(None);

        proof {
            let pre = old(self)@;
            let i0 = index@.index;
            assert(self@.free =~= pre.free.push(i0));
            assert(self@.slots =~= pre.slots.update(
                i0,
                SlotView { generation: (pre.slots[i0].generation + 1) as nat, item: None },
            ));
            crate::model::lemma_free_makes_dead(pre, self@, index@);
        }
        Ok(())
    }

    /// Look the value up.  `None` on a stale handle is a normal query
    /// result, not an error.
    pub fn get(&self, index: &GenerationalIndex) -> (r: Option<&T>)
        requires
            self@.wf(),
            self@.handle_ok(index@),
        ensures
            r is Some <==> self@.is_live(index@),
            r matches Some(v) ==> self@.item_at(index@) == Some(*v),
    {
        if !self.is_live(index) {
            return None;
        }

        (&*self.elements[index.get_index()].item).as_ref()
    }

    /// Look the value up for writing, under the same liveness gate as
    /// [`Self::get`].  Whatever the caller writes through the returned
    /// reference becomes the slot's value; nothing else changes.
    pub fn get_mut(&mut self, index: &GenerationalIndex) -> (r: Option<&mut T>)
        requires
            old(self)@.wf(),
            old(self)@.handle_ok(index@),
        ensures
            r is Some <==> old(self)@.is_live(index@),
            r is None ==> final(self)@ == old(self)@,
            r is Some ==> old(self)@.item_at(index@) == Some(*r.unwrap()),
            r is Some ==> final(self)@.free == old(self)@.free,
            r is Some ==> final(self)@.slots =~= old(self)@.slots.update(
                index@.index,
                SlotView { generation: index@.generation, item: Some(*final(r.unwrap())) },
            ),
    {
        if !self.is_live(index) {
            return None;
        }

        (&mut *self.elements[index.get_index()].item).as_mut()
    }
}

/// One slot of a [`GIAUninitCell`].  A vacant slot holds no value at all;
/// the tagged option stands for storage that must not be read until the
/// slot is occupied again.
pub struct GIAEntryUninitCell<T> {
    item: Option<T>,
    generation: u32,
}

/// A value-array allocator whose vacant slots hold no value.  Same contract
/// as [`GenerationalIndexArrayCell`].
pub struct GIAUninitCell<T> {
    elements: Vec<GIAEntryUninitCell<T>>,
    free: VecDeque<usize>,
}

impl<T> View for GIAUninitCell<T> {
    type V = StoreView<T>;

    closed spec fn view(&self) -> StoreView<T> {
        StoreView {
            slots: self.elements@.map_values(
                |e: GIAEntryUninitCell<T>|
                    SlotView { generation: e.generation as nat, item: e.item },
            ),
            free: self.free@.map_values(|x: usize| x as int),
        }
    }
}

impl<T> Default for GIAUninitCell<T> {
    /// An empty allocator: no slots, nothing free.
    fn default() -> (r: Self)
        ensures
            r@ == StoreView::<T>::empty(),
            r@.wf(),
    {
        let r = GIAUninitCell { elements: Vec::new(), free: VecDeque::new() };
        proof {
            assert(r@.slots =~= StoreView::<T>::empty().slots);
            assert(r@.free =~= StoreView::<T>::empty().free);
        }
        r
    }
}

impl<T> GIAUninitCell<T> {
    /// Store a value: reuse the longest-freed slot if one is vacant,
    /// otherwise append a fresh slot.
    pub fn new(&mut self, element: T) -> (h: GenerationalIndex)
        requires
            old(self)@.wf(),
        ensures
            final(self)@.wf(),
            h@ == old(self)@.alloc_result(0),
            final(self)@.is_live(h@),
            final(self)@.handle_ok(h@),
            final(self)@.item_at(h@) == Some(element),
            if old(self)@.free.len() == 0 {
                old(self)@.alloc_fresh(final(self)@, element)
            } else {
                old(self)@.alloc_reuse(final(self)@, 0, element)
            },
            forall|g: HandleView| #[trigger]
                old(self)@.handle_ok(g) ==> final(self)@.handle_ok(g) && (final(self)@.is_live(
                    g,
                ) <==> old(self)@.is_live(g)),
    {
        if self.free.len() == 0 {
            let next_index: usize = self.elements.len();
            let entry = GIAEntryUninitCell { generation: 0, item: Some(element) };
            self.elements.push(entry);
            proof {
                assert(self@.slots =~= old(self)@.slots.push(
                    SlotView { generation: 0, item: Some(element) },
                ));
                crate::model::lemma_alloc_fresh(old(self)@, self@, element);
            }
            return GenerationalIndex::from_parts(next_index, 0);
        }

        let index: usize = self.free.pop_front().unwrap();
        proof {
            assert(old(self)@.in_range(old(self)@.free[0]));
        }
        let entry = &mut self.elements[index];
        let generation: u32 = entry.generation;
        entry.item = Some(element);

        proof {
            let pre = old(self)@;
            crate::model::lemma_remove_contains(pre.free, 0);
            assert(self@.free =~= pre.free.remove(0));
            assert(self@.slots =~= pre.slots.update(
                index as int,
                SlotView { generation: pre.slots[index as int].generation, item: Some(element) },
            ));
            crate::model::lemma_alloc_reuse(pre, self@, 0, element);
        }
        GenerationalIndex::from_parts(index, generation)
    }

    /// Liveness check: the handle's captured generation still matches the
    /// slot's current one.
    #[inline(always)]
    pub fn is_live(&self, index: &GenerationalIndex) -> (r: bool)
        requires
            index@.index < self@.slots.len(),
        ensures
            r == self@.is_live(index@),
    {
        index.get_generation() == self.elements[index.get_index()].generation
    }

    /// Free the slot a live handle designates: the value is dropped exactly
    /// once.  On a stale handle this is a double free: it fails loudly with
    /// an error and changes nothing.
    pub fn free(&mut self, index: &GenerationalIndex) -> (r: Result<(), StaleHandleError>)
        requires
            old(self)@.wf(),
            old(self)@.handle_ok(index@),
            old(self)@.is_live(index@) ==> old(self)@.slots[index@.index].generation
                < u32::MAX,
        ensures
            final(self)@.wf(),
            r is Ok <==> old(self)@.is_live(index@),
            r is Ok ==> old(self)@.free_slot(final(self)@, index@.index)
                && !final(self)@.is_live(index@),
            r is Err ==> final(self)@ == old(self)@,
            forall|g: HandleView| #[trigger]
                old(self)@.handle_ok(g) ==> final(self)@.handle_ok(g),
    {
        if !self.is_live(index) {
            return Err(StaleHandleError);
        }

        self.free.push_back(index.get_index());
        let entry = &mut self.elements[index.get_index()];
        entry.generation = entry.generation + 1;
        entry.item = None;

        proof {
            let pre = old(self)@;
            let i0 = index@.index;
            assert(self@.free =~= pre.free.push(i0));
            assert(self@.slots =~= pre.slots.update(
                i0,
                SlotView { generation: (pre.slots[i0].generation + 1) as nat, item: None },
            ));
            crate::model::lemma_free_makes_dead(pre, self@, index@);
        }
        Ok(())
    }

    /// Look the value up.  `None` on a stale handle is a normal query
    /// result, not an error.
    pub fn get(&self, index: &GenerationalIndex) -> (r: Option<&T>)
        requires
            self@.wf(),
            self@.handle_ok(index@),
        ensures
            r is Some <==> self@.is_live(index@),
            r matches Some(v) ==> self@.item_at(index@) == Some(*v),
    {
        if !self.is_live(index) {
            return None;
        }

        self.elements[index.get_index()].item.as_ref()
    }

    /// Look the value up for writing, under the same liveness gate as
    /// [`Self::get`].  Whatever the caller writes through the returned
    /// reference becomes the slot's value; nothing else changes.
    pub fn get_mut(&mut self, index: &GenerationalIndex) -> (r: Option<&mut T>)
        requires
            old(self)@.wf(),
            old(self)@.handle_ok(index@),
        ensures
            r is Some <==> old(self)@.is_live(index@),
            r is None ==> final(self)@ == old(self)@,
            r is Some ==> old(self)@.item_at(index@) == Some(*r.unwrap()),
            r is Some ==> final(self)@.free == old(self)@.free,
            r is Some ==> final(self)@.slots =~= old(self)@.slots.update(
                index@.index,
                SlotView { generation: index@.generation, item: Some(*final(r.unwrap())) },
            ),
    {
        if !self.is_live(index) {
            return None;
        }

        self.elements[index.get_index()].item.as_mut()
    }
}

} // verus!
