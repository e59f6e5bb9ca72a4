//! The abstract model shared by every allocator in this crate.
//!
//! Each concrete allocator maps (through its view) to a [`StoreView`]: a
//! sequence of slots, each carrying a generation counter and an optional
//! payload, together with a free list of the vacant slots available for
//! reuse.  A handle abstracts to a [`HandleView`]: the slot it designates and
//! the generation captured when it was issued.
//!
//! The public operations of the allocators are specified as transitions of
//! this model ([`StoreView::alloc_fresh`], [`StoreView::alloc_reuse`],
//! [`StoreView::free_slot`]), and the laws that hold of every sequence of
//! such transitions are proved here once, for all strategies.

use vstd::prelude::*;

verus! {

/// What a handle records: the slot it designates and the generation the
/// allocator had given that slot when the handle was issued.
pub ghost struct HandleView {
    pub index: int,
    pub generation: nat,
}

/// One slot: its current generation and its payload.  `None` means the slot
/// is vacant and must not be read.
#[verifier::ext_equal]
pub ghost struct SlotView<T> {
    pub generation: nat,
    pub item: Option<T>,
}

/// The abstract state of an allocator: all slots ever created, in creation
/// order, and the free list of vacant slots available for reuse.
#[verifier::ext_equal]
pub ghost struct StoreView<T> {
    pub slots: Seq<SlotView<T>>,
    pub free: Seq<int>,
}

impl<T> StoreView<T> {
    /// The store that every allocator starts from: no slots, nothing free.
    pub open spec fn empty() -> StoreView<T> {
        StoreView { slots: Seq::empty(), free: Seq::empty() }
    }

    pub open spec fn in_range(self, i: int) -> bool {
        0 <= i < self.slots.len()
    }

    pub open spec fn in_bounds(self, h: HandleView) -> bool {
        self.in_range(h.index)
    }

    /// Liveness: the handle's captured generation matches its slot's current
    /// generation.
    pub open spec fn is_live(self, h: HandleView) -> bool {
        self.in_bounds(h) && h.generation == self.slots[h.index].generation
    }

    /// The payload of the slot the handle designates.
    pub open spec fn item_at(self, h: HandleView) -> Option<T>
        recommends
            self.in_bounds(h),
    {
        self.slots[h.index].item
    }

    /// Holds of every handle this allocator has issued, live or stale: the
    /// slot exists, the captured generation never exceeds the slot's current
    /// one (generations only grow, and a handle copies the value current at
    /// issue time), and a handle that still matches its slot's generation
    /// cannot designate a slot that sits on the free list (freeing bumped the
    /// generation past every handle issued before).  Handles are capabilities
    /// produced only by the allocator, so callers always have this.
    pub open spec fn handle_ok(self, h: HandleView) -> bool {
        &&& self.in_bounds(h)
        &&& h.generation <= self.slots[h.index].generation
        &&& h.generation == self.slots[h.index].generation ==> !self.free.contains(h.index)
    }

    /// The allocator invariant: the free list names existing slots, names
    /// each at most once, and a slot is vacant exactly when it is on the
    /// free list.
    pub open spec fn wf(self) -> bool {
        &&& forall|k: int| 0 <= k < self.free.len() ==> self.in_range(#[trigger] self.free[k])
        &&& self.free.no_duplicates()
        &&& forall|i: int|
            0 <= i < self.slots.len() ==> ((#[trigger] self.slots[i].item) is None
                <==> self.free.contains(i))
    }

    /// Allocation when the free list is empty: a slot with generation 0 is
    /// appended and immediately occupied.
    pub open spec fn alloc_fresh(self, post: StoreView<T>, value: T) -> bool {
        &&& self.free.len() == 0
        &&& post.slots == self.slots.push(SlotView { generation: 0, item: Some(value) })
        &&& post.free == self.free
    }

    /// Allocation when the free list is not empty: the entry at position `k`
    /// of the free list leaves it, and its slot is occupied again at its
    /// current generation.
    pub open spec fn alloc_reuse(self, post: StoreView<T>, k: int, value: T) -> bool {
        &&& 0 <= k < self.free.len()
        &&& post.slots == self.slots.update(
            self.free[k],
            SlotView { generation: self.slots[self.free[k]].generation, item: Some(value) },
        )
        &&& post.free == self.free.remove(k)
    }

    /// The handle an allocation returns, given the state it started from:
    /// the appended slot with generation 0 when the free list was empty, the
    /// reused slot with its current generation otherwise.
    pub open spec fn alloc_result(self, k: int) -> HandleView {
        if self.free.len() == 0 {
            HandleView { index: self.slots.len() as int, generation: 0 }
        } else {
            HandleView { index: self.free[k], generation: self.slots[self.free[k]].generation }
        }
    }

    /// Freeing a live handle: the payload is dropped, the generation grows
    /// by exactly one, and the slot joins the free list.
    pub open spec fn free_slot(self, post: StoreView<T>, i: int) -> bool {
        &&& 0 <= i < self.slots.len()
        &&& post.slots == self.slots.update(
            i,
            SlotView { generation: (self.slots[i].generation + 1) as nat, item: None },
        )
        &&& post.free == self.free.push(i)
    }

    /// How many slots are occupied (hold a live value).
    pub open spec fn live_count(self) -> nat {
        StoreView::occupied_in(self.slots)
    }

    /// How many of the given slots are occupied, counted from the back.
    pub open spec fn occupied_in(slots: Seq<SlotView<T>>) -> nat
        decreases slots.len(),
    {
        if slots.len() == 0 {
            0
        } else {
            StoreView::occupied_in(slots.drop_last()) + if slots.last().item is Some {
                1nat
            } else {
                0nat
            }
        }
    }
}

/// Membership in a sequence after a push.
pub proof fn lemma_push_contains<A>(s: Seq<A>, x: A, y: A)
    ensures
        s.push(x).contains(y) <==> (s.contains(y) || y == x),
{
    if y == x {
        assert(s.push(x)[s.len() as int] == x);
    }
    if s.contains(y) {
        let i = choose|i: int| 0 <= i < s.len() && s[i] == y;
        assert(s.push(x)[i] == y);
    }
    if s.push(x).contains(y) {
        let i = choose|i: int| 0 <= i < s.push(x).len() && s.push(x)[i] == y;
        if i < s.len() {
            assert(s[i] == y);
        }
    }
}

/// Membership in a duplicate-free sequence after removing position `k`.
pub proof fn lemma_remove_contains<A>(s: Seq<A>, k: int)
    requires
        0 <= k < s.len(),
        s.no_duplicates(),
    ensures
        s.remove(k).no_duplicates(),
        forall|y: A| #[trigger] s.remove(k).contains(y) <==> (s.contains(y) && y != s[k]),
{
    s.remove_ensures(k);
    let r = s.remove(k);
    assert forall|i: int, j: int| 0 <= i < r.len() && 0 <= j < r.len() && i != j implies r[i]
        != r[j] by {
        let i0: int = if i < k {
            i
        } else {
            i + 1
        };
        let j0: int = if j < k {
            j
        } else {
            j + 1
        };
        assert(r[i] == s[i0] && r[j] == s[j0]);
    }
    assert forall|y: A| #[trigger] r.contains(y) implies (s.contains(y) && y != s[k]) by {
        let i = choose|i: int| 0 <= i < r.len() && r[i] == y;
        let i0: int = if i < k {
            i
        } else {
            i + 1
        };
        assert(s[i0] == y);
    }
    assert forall|y: A| s.contains(y) && y != s[k] implies #[trigger] r.contains(y) by {
        let i = choose|i: int| 0 <= i < s.len() && s[i] == y;
        if i < k {
            assert(r[i] == y);
        } else {
            assert(r[i - 1] == y);
        }
    }
}

/// Allocating a fresh slot keeps the store well formed; the returned handle
/// is live and reads back the stored value; every handle issued before keeps
/// exactly the liveness it had; no generation moves.
///
/// Together with [`lemma_alloc_reuse`], [`lemma_free_makes_dead`] and
/// [`lemma_dead_stays_dead`] this shows that over any sequence of allocate
/// and free calls a handle is live from its allocation until exactly the
/// free that names it, and never again after that.
pub proof fn lemma_alloc_fresh<T>(pre: StoreView<T>, post: StoreView<T>, value: T)
    requires
        pre.wf(),
        pre.alloc_fresh(post, value),
    ensures
        post.wf(),
        post.is_live(pre.alloc_result(0)),
        post.handle_ok(pre.alloc_result(0)),
        post.item_at(pre.alloc_result(0)) == Some(value),
        forall|g: HandleView| #[trigger]
            pre.handle_ok(g) ==> post.handle_ok(g) && (post.is_live(g) <==> pre.is_live(g)),
        forall|i: int|
            0 <= i < pre.slots.len() ==> #[trigger] post.slots[i] == pre.slots[i],
        post.slots.len() == pre.slots.len() + 1,
        post.free == pre.free,
{
    let h = pre.alloc_result(0);
    assert(post.slots[h.index].generation == 0);
    assert forall|i: int| 0 <= i < post.slots.len() implies ((#[trigger] post.slots[i].item)
        is None <==> post.free.contains(i)) by {
        if i < pre.slots.len() {
            assert(pre.slots[i].item is None <==> pre.free.contains(i));
        }
    }
}

/// Allocating out of the free list keeps the store well formed; the returned
/// handle is live and reads back the stored value; every handle issued
/// before keeps exactly the liveness it had (in particular, a stale handle
/// to the reused slot stays stale); no generation moves.
pub proof fn lemma_alloc_reuse<T>(pre: StoreView<T>, post: StoreView<T>, k: int, value: T)
    requires
        pre.wf(),
        pre.alloc_reuse(post, k, value),
    ensures
        post.wf(),
        post.is_live(pre.alloc_result(k)),
        post.handle_ok(pre.alloc_result(k)),
        post.item_at(pre.alloc_result(k)) == Some(value),
        forall|g: HandleView| #[trigger]
            pre.handle_ok(g) ==> post.handle_ok(g) && (post.is_live(g) <==> pre.is_live(g)),
        forall|i: int|
            0 <= i < pre.slots.len() ==> (#[trigger] post.slots[i]).generation
                == pre.slots[i].generation,
        post.slots.len() == pre.slots.len(),
        post.free.len() == pre.free.len() - 1,
{
    let i0 = pre.free[k];
    lemma_remove_contains(pre.free, k);
    assert forall|i: int| 0 <= i < post.slots.len() implies ((#[trigger] post.slots[i].item)
        is None <==> post.free.contains(i)) by {
        if i != i0 {
            assert(pre.slots[i].item is None <==> pre.free.contains(i));
        }
    }
    assert forall|g: HandleView| #[trigger] pre.handle_ok(g) implies post.handle_ok(g) && (
    post.is_live(g) <==> pre.is_live(g)) by {
        if g.index == i0 {
            assert(pre.free.contains(i0));
            assert(g.generation < pre.slots[i0].generation);
        }
    }
}

/// Freeing a live handle keeps the store well formed, leaves the handle (and
/// every other handle to the same slot) dead, raises the slot's generation
/// by exactly one, and does not touch the liveness of handles to other
/// slots.  A second free of the same handle therefore finds it dead: the
/// double free is detected, never silently accepted.
pub proof fn lemma_free_makes_dead<T>(pre: StoreView<T>, post: StoreView<T>, h: HandleView)
    requires
        pre.wf(),
        pre.handle_ok(h),
        pre.is_live(h),
        pre.free_slot(post, h.index),
    ensures
        post.wf(),
        !post.is_live(h),
        post.handle_ok(h),
        post.slots[h.index].generation == pre.slots[h.index].generation + 1,
        forall|g: HandleView| #[trigger] pre.handle_ok(g) ==> post.handle_ok(g),
        forall|g: HandleView| #[trigger]
            pre.handle_ok(g) && g.index != h.index ==> (post.is_live(g) <==> pre.is_live(g)),
        forall|g: HandleView| #[trigger]
            pre.handle_ok(g) && g.index == h.index ==> !post.is_live(g),
        forall|i: int|
            0 <= i < pre.slots.len() && i != h.index ==> #[trigger] post.slots[i]
                == pre.slots[i],
        post.slots.len() == pre.slots.len(),
{
    let i0 = h.index;
    assert(!pre.free.contains(i0));
    assert forall|i: int, j: int|
        0 <= i < post.free.len() && 0 <= j < post.free.len() && i != j implies post.free[i]
        != post.free[j] by {
        lemma_push_contains(pre.free, i0, i0);
        if i < pre.free.len() && j < pre.free.len() {
            assert(pre.free[i] != pre.free[j]);
        } else if i < pre.free.len() {
            assert(pre.free.contains(pre.free[i]));
        } else if j < pre.free.len() {
            assert(pre.free.contains(pre.free[j]));
        }
    }
    assert forall|i: int| 0 <= i < post.slots.len() implies ((#[trigger] post.slots[i].item)
        is None <==> post.free.contains(i)) by {
        lemma_push_contains(pre.free, i0, i);
        if i != i0 {
            assert(pre.slots[i].item is None <==> pre.free.contains(i));
        }
    }
    assert forall|g: HandleView| #[trigger] pre.handle_ok(g) implies post.handle_ok(g) by {
        lemma_push_contains(pre.free, i0, g.index);
    }
}

/// Once a handle is dead it can never come back to life: generations only
/// grow, so any later state whose generation at the slot is at least the
/// current one still rejects the handle.
pub proof fn lemma_dead_stays_dead<T>(pre: StoreView<T>, post: StoreView<T>, h: HandleView)
    requires
        pre.handle_ok(h),
        !pre.is_live(h),
        post.slots.len() >= pre.slots.len(),
        post.slots[h.index].generation >= pre.slots[h.index].generation,
    ensures
        !post.is_live(h),
{
}

/// Generations never decrease: across any single allocation or free step,
/// the slot count only grows, and every existing slot's generation only
/// grows.  This is what makes staleness permanent.
pub proof fn lemma_generations_monotonic<T>(
    pre: StoreView<T>,
    post: StoreView<T>,
    k: int,
    i: int,
    value: T,
)
    requires
        pre.wf(),
        pre.alloc_fresh(post, value) || pre.alloc_reuse(post, k, value) || pre.free_slot(
            post,
            i,
        ),
    ensures
        post.slots.len() >= pre.slots.len(),
        forall|j: int|
            0 <= j < pre.slots.len() ==> (#[trigger] post.slots[j]).generation
                >= pre.slots[j].generation,
{
    if pre.alloc_fresh(post, value) {
        assert(post.slots.len() == pre.slots.len() + 1);
    } else if pre.alloc_reuse(post, k, value) {
        assert(pre.in_range(pre.free[k]));
    } else {
        assert(pre.free_slot(post, i));
    }
}

/// Freeing a handle twice must fail.  After the free of `h` succeeds, `h`
/// is dead in the state the free leaves behind, and — generations never
/// decreasing — in every later state too, so a second free of `h` is
/// rejected wherever it happens.
pub proof fn lemma_double_free_rejected<T>(
    pre: StoreView<T>,
    mid: StoreView<T>,
    later: StoreView<T>,
    h: HandleView,
)
    requires
        pre.wf(),
        pre.handle_ok(h),
        pre.is_live(h),
        pre.free_slot(mid, h.index),
        later.slots.len() >= mid.slots.len(),
        later.slots[h.index].generation >= mid.slots[h.index].generation,
    ensures
        !mid.is_live(h),
        !later.is_live(h),
{
    lemma_free_makes_dead(pre, mid, h);
    lemma_dead_stays_dead(mid, later, h);
}

/// When allocation reuses the slot of a stale handle, the new handle carries
/// the same index but a strictly greater generation than the stale one, and
/// the stale handle stays dead.
pub proof fn lemma_reuse_changes_generation<T>(
    pre: StoreView<T>,
    post: StoreView<T>,
    k: int,
    value: T,
    stale: HandleView,
)
    requires
        pre.wf(),
        pre.handle_ok(stale),
        pre.alloc_reuse(post, k, value),
        pre.free[k] == stale.index,
    ensures
        pre.alloc_result(k).index == stale.index,
        stale.generation < pre.alloc_result(k).generation,
        post.is_live(pre.alloc_result(k)),
        !post.is_live(stale),
{
    assert(pre.free.contains(stale.index));
    lemma_alloc_reuse(pre, post, k, value);
}

/// Freeing and then reusing the same slot hands out a handle whose
/// generation is exactly one more than the freed handle's.
pub proof fn lemma_free_then_reuse<T>(
    s0: StoreView<T>,
    s1: StoreView<T>,
    s2: StoreView<T>,
    h: HandleView,
    k: int,
    value: T,
)
    requires
        s0.wf(),
        s0.handle_ok(h),
        s0.is_live(h),
        s0.free_slot(s1, h.index),
        s1.alloc_reuse(s2, k, value),
        s1.free[k] == h.index,
    ensures
        s1.alloc_result(k).index == h.index,
        s1.alloc_result(k).generation == h.generation + 1,
        s2.is_live(s1.alloc_result(k)),
        !s2.is_live(h),
{
    lemma_free_makes_dead(s0, s1, h);
    lemma_alloc_reuse(s1, s2, k, value);
}

/// Round trip: immediately after an allocation, whichever step it took,
/// the returned handle is live and reads back exactly the value stored.
pub proof fn lemma_alloc_round_trip<T>(pre: StoreView<T>, post: StoreView<T>, k: int, value: T)
    requires
        pre.wf(),
        pre.free.len() == 0 ==> pre.alloc_fresh(post, value),
        pre.free.len() > 0 ==> 0 <= k < pre.free.len() && pre.alloc_reuse(post, k, value),
    ensures
        post.wf(),
        post.is_live(pre.alloc_result(k)),
        post.item_at(pre.alloc_result(k)) == Some(value),
{
    if pre.free.len() == 0 {
        lemma_alloc_fresh(pre, post, value);
    } else {
        lemma_alloc_reuse(pre, post, k, value);
    }
}

/// Writing a new value into an occupied slot (what a caller does through a
/// mutable reference from a `get_mut`) keeps the store well formed and does
/// not move any generation: every handle keeps exactly the liveness it had,
/// and the written slot reads back the written value.
pub proof fn lemma_write_keeps_wf<T>(pre: StoreView<T>, post: StoreView<T>, i: int, value: T)
    requires
        pre.wf(),
        0 <= i < pre.slots.len(),
        pre.slots[i].item is Some,
        post.slots == pre.slots.update(
            i,
            SlotView { generation: pre.slots[i].generation, item: Some(value) },
        ),
        post.free == pre.free,
    ensures
        post.wf(),
        forall|g: HandleView| #[trigger]
            pre.handle_ok(g) ==> post.handle_ok(g) && (post.is_live(g) <==> pre.is_live(g)),
        post.item_at(HandleView { index: i, generation: pre.slots[i].generation })
            == Some(value),
{
    assert forall|j: int| 0 <= j < post.slots.len() implies ((#[trigger] post.slots[j].item)
        is None <==> post.free.contains(j)) by {
        assert(pre.slots[j].item is None <==> pre.free.contains(j));
        if j == i {
            assert(!pre.free.contains(i));
        }
    }
}

/// The bookkeeping balance: in every well-formed store, the size of the
/// free list plus the number of live (occupied) slots equals the total
/// number of slots ever created.
pub proof fn lemma_free_plus_live_is_total<T>(s: StoreView<T>)
    requires
        s.wf(),
    ensures
        s.free.len() + s.live_count() == s.slots.len(),
    decreases s.slots.len(),
{
    if s.slots.len() == 0 {
        if s.free.len() > 0 {
            assert(s.in_range(s.free[0]));
        }
    } else {
        let n = s.slots.len() - 1;
        if s.slots[n].item is Some {
            let s2 = StoreView { slots: s.slots.drop_last(), free: s.free };
            assert forall|k: int| 0 <= k < s2.free.len() implies s2.in_range(
                #[trigger] s2.free[k],
            ) by {
                assert(s.in_range(s.free[k]));
                if s.free[k] == n {
                    assert(s.free.contains(n));
                }
            }
            assert forall|i: int| 0 <= i < s2.slots.len() implies ((
            #[trigger] s2.slots[i].item) is None <==> s2.free.contains(i)) by {
                assert(s2.slots[i] == s.slots[i]);
                assert(s.slots[i].item is None <==> s.free.contains(i));
            }
            lemma_free_plus_live_is_total(s2);
        } else {
            assert(s.free.contains(n));
            let k = choose|k: int| 0 <= k < s.free.len() && s.free[k] == n;
            lemma_remove_contains(s.free, k);
            let s2 = StoreView { slots: s.slots.drop_last(), free: s.free.remove(k) };
            assert forall|k2: int| 0 <= k2 < s2.free.len() implies s2.in_range(
                #[trigger] s2.free[k2],
            ) by {
                assert(s2.free.contains(s2.free[k2]));
                assert(s.free.contains(s2.free[k2]) && s2.free[k2] != n);
                let j = choose|j: int| 0 <= j < s.free.len() && s.free[j] == s2.free[k2];
                assert(s.in_range(s.free[j]));
            }
            assert forall|i: int| 0 <= i < s2.slots.len() implies ((
            #[trigger] s2.slots[i].item) is None <==> s2.free.contains(i)) by {
                assert(s2.slots[i] == s.slots[i]);
                assert(s.slots[i].item is None <==> s.free.contains(i));
            }
            lemma_free_plus_live_is_total(s2);
        }
    }
}

} // verus!
