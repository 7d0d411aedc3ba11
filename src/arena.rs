//! Generation-checked slots behind opaque 64-bit handles.
//!
//! A handle packs a slot index (low 32 bits) with the slot's generation (high
//! 32 bits). Freeing a slot bumps its generation, so a stale handle is
//! rejected, and a handle once issued is never issued again.
use vstd::prelude::*;

verus! {

/// Number of slots an arena can hold; also the bound on generations.
pub const SLOT_LIMIT: u64 = 0x1_0000_0000;

pub open spec fn handle_index(h: u64) -> u64 {
    h & 0xffff_ffff
}

pub open spec fn handle_generation(h: u64) -> u64 {
    h >> 32
}

pub open spec fn pack_spec(index: u64, generation: u64) -> u64 {
    (generation << 32) | index
}

proof fn lemma_pack(index: u64, generation: u64)
    requires
        index < SLOT_LIMIT,
        generation < SLOT_LIMIT,
    ensures
        handle_index(pack_spec(index, generation)) == index,
        handle_generation(pack_spec(index, generation)) == generation,
{
    assert((((generation << 32) | index) & 0xffff_ffff) == index && (((generation << 32)
        | index) >> 32) == generation) by (bit_vector)
        requires
            index < 0x1_0000_0000u64,
            generation < 0x1_0000_0000u64,
    ;
}

proof fn lemma_unpack(h: u64)
    ensures
        h == pack_spec(handle_index(h), handle_generation(h)),
        handle_index(h) < SLOT_LIMIT,
        handle_generation(h) < SLOT_LIMIT,
{
    assert(h == (((h >> 32) << 32) | (h & 0xffff_ffff)) && (h & 0xffff_ffff) < 0x1_0000_0000u64
        && (h >> 32) < 0x1_0000_0000u64) by (bit_vector);
}

fn pack(index: u64, generation: u64) -> (h: u64)
    requires
        index < SLOT_LIMIT,
        generation < SLOT_LIMIT,
    ensures
        h == pack_spec(index, generation),
        handle_index(h) == index,
        handle_generation(h) == generation,
{
    proof {
        lemma_pack(index, generation);
    }
    (generation << 32) | index
}

struct Slot<T> {
    generation: u64,
    item: Option<T>,
}

spec fn reusable<T>(slot: Slot<T>) -> bool {
    slot.item is None && slot.generation < SLOT_LIMIT
}

/// How many of the first `n` slots can take a new item.
spec fn free_count<T>(slots: Seq<Slot<T>>, n: int) -> nat
    decreases n,
{
    if n <= 0 {
        0
    } else {
        free_count(slots, n - 1) + if reusable(slots[n - 1]) {
            1nat
        } else {
            0nat
        }
    }
}

proof fn lemma_free_count_none<T>(slots: Seq<Slot<T>>, n: int)
    requires
        0 <= n <= slots.len(),
        forall|i: int| 0 <= i < n ==> !reusable(#[trigger] slots[i]),
    ensures
        free_count(slots, n) == 0,
    decreases n,
{
    if n > 0 {
        lemma_free_count_none(slots, n - 1);
    }
}

proof fn lemma_free_count_take<T>(slots: Seq<Slot<T>>, i: int, x: Slot<T>, n: int)
    requires
        0 <= i < slots.len(),
        0 <= n <= slots.len(),
        reusable(slots[i]),
        !reusable(x),
    ensures
        free_count(slots.update(i, x), n) + (if i < n {
            1nat
        } else {
            0nat
        }) == free_count(slots, n),
    decreases n,
{
    if n > 0 {
        lemma_free_count_take(slots, i, x, n - 1);
    }
}

proof fn lemma_free_count_push<T>(slots: Seq<Slot<T>>, x: Slot<T>, n: int)
    requires
        0 <= n <= slots.len(),
    ensures
        free_count(slots.push(x), n) == free_count(slots, n),
    decreases n,
{
    if n > 0 {
        lemma_free_count_push(slots, x, n - 1);
    }
}

/// A table of items addressed by generation-checked handles.
pub struct Arena<T> {
    slots: Vec<Slot<T>>,
    /// Every handle this arena has ever handed out.
    issued: Ghost<Set<u64>>,
}

impl<T> Arena<T> {
    pub closed spec fn slot_live(self, i: int) -> bool {
        0 <= i < self.slots@.len() && self.slots@[i].item is Some
    }

    /// A handle is live when its slot holds an item under the handle's generation.
    pub closed spec fn live(self, h: u64) -> bool {
        &&& self.slot_live(handle_index(h) as int)
        &&& self.slots@[handle_index(h) as int].generation == handle_generation(h)
    }

    pub closed spec fn item(self, h: u64) -> T {
        self.slots@[handle_index(h) as int].item->Some_0
    }

    /// The live handles and the item under each.
    pub closed spec fn view(self) -> Map<u64, T> {
        Map::new(|h: u64| self.live(h), |h: u64| self.item(h))
    }

    /// The handles handed out so far, live or not.
    pub closed spec fn issued(self) -> Set<u64> {
        self.issued@
    }

    /// How many more items fit: the reusable slots plus the slots not yet made.
    pub closed spec fn room(self) -> nat {
        free_count(self.slots@, self.slots@.len() as int) + (SLOT_LIMIT - self.slots@.len()) as nat
    }

    /// No new item fits: every slot is taken or retired and no slot can be added.
    pub closed spec fn full(self) -> bool {
        &&& self.slots@.len() >= SLOT_LIMIT
        &&& forall|i: int|
            0 <= i < self.slots@.len() ==> #[trigger] self.slots@[i].item is Some
                || self.slots@[i].generation >= SLOT_LIMIT
    }

    pub closed spec fn wf(self) -> bool {
        &&& self.slots@.len() <= SLOT_LIMIT
        &&& forall|i: int|
            0 <= i < self.slots@.len() ==> {
                &&& #[trigger] self.slots@[i].generation <= SLOT_LIMIT
                &&& self.slots@[i].item is Some ==> self.slots@[i].generation < SLOT_LIMIT
                    && self.issued@.contains(pack_spec(i as u64, self.slots@[i].generation))
                &&& self.slots@[i].item is None && self.slots@[i].generation < SLOT_LIMIT
                    ==> !self.issued@.contains(pack_spec(i as u64, self.slots@[i].generation))
            }
        &&& forall|h: u64|
            #[trigger] self.issued@.contains(h) ==> handle_index(h) < self.slots@.len()
                && handle_generation(h) <= self.slots@[handle_index(h) as int].generation
    }

    pub fn new() -> (r: Self)
        ensures
            r.wf(),
            r@ == Map::<u64, T>::empty(),
            r.issued() == Set::<u64>::empty(),
            r.room() == SLOT_LIMIT,
            !r.full(),
    {
        let r = Arena { slots: Vec::new(), issued: Ghost(Set::empty()) };
        assert(r@ =~= Map::<u64, T>::empty());
        r
    }

    pub proof fn lemma_live_issued(self, h: u64)
        requires
            self.wf(),
            self@.contains_key(h),
        ensures
            self.issued().contains(h),
    {
        lemma_unpack(h);
    }

    /// Looks a handle up; a stale or foreign handle finds nothing.
    pub fn get(&self, h: u64) -> (r: Option<&T>)
        requires
            self.wf(),
        ensures
            r is Some <==> self@.contains_key(h),
            r matches Some(x) ==> *x == self@[h],
    {
        let i = h & 0xffff_ffff;
        let g = h >> 32;
        if i < self.slots.len() as u64 && self.slots[i as usize].generation == g {
            match &self.slots[i as usize].item {
                Some(x) => Some(x),
                None => None,
            }
        } else {
            None
        }
    }

    /// Stores an item under a handle never handed out before; `None` when the
    /// arena is full.
    pub fn insert(&mut self, v: T) -> (r: Option<u64>)
        requires
            old(self).wf(),
        ensures
            final(self).wf(),
            r is None <==> old(self).full(),
            r is None ==> old(self).room() == 0,
            r is Some ==> final(self).room() + 1 == old(self).room(),
            r matches Some(h) ==> {
                &&& !old(self).issued().contains(h)
                &&& final(self)@ == old(self)@.insert(h, v)
                &&& final(self).issued() == old(self).issued().insert(h)
            },
            r is None ==> final(self)@ == old(self)@ && final(self).issued() == old(self).issued(),
    {
        let len = self.slots.len();
        let mut i: usize = 0;
        while i < len
            invariant
                self.wf(),
                self.slots@ == old(self).slots@,
                self.issued@ == old(self).issued@,
                len == self.slots@.len(),
                i <= len,
                forall|j: int|
                    0 <= j < i ==> #[trigger] self.slots@[j].item is Some
                        || self.slots@[j].generation >= SLOT_LIMIT,
            decreases len - i,
        {
            if self.slots[i].item.is_none() && self.slots[i].generation < SLOT_LIMIT {
                let g = self.slots[i].generation;
                let h = pack(i as u64, g);
                let ghost old_self = *self;
                assert(!old(self).full()) by {
                    assert(!(self.slots@[i as int].item is Some || self.slots@[i as int].generation >= SLOT_LIMIT));
                }
                self.slots.set(i, Slot { generation: g, item: Some(v) });
                proof {
                    lemma_free_count_take(old_self.slots@, i as int, Slot { generation: g, item: Some(v) }, len as int);
                    assert(self.slots@ == old_self.slots@.update(i as int, Slot { generation: g, item: Some(v) }));
                }
                self.issued = Ghost(self.issued@.insert(h));
                proof {
                    assert forall|h2: u64| #[trigger] self.live(h2) <==> old_self.live(h2) || h2 == h by {
                        lemma_unpack(h2);
                    }
                    assert(self@ =~= old_self@.insert(h, v));
                    assert forall|h2: u64| #[trigger] self.issued@.contains(h2) implies handle_index(h2)
                        < self.slots@.len() && handle_generation(h2)
                        <= self.slots@[handle_index(h2) as int].generation by {
                        if h2 != h {
                            assert(old_self.issued@.contains(h2));
                        }
                    }
                    assert forall|j: int| 0 <= j < self.slots@.len() && #[trigger] self.slots@[j].item is None
                        && self.slots@[j].generation < SLOT_LIMIT implies !self.issued@.contains(
                        pack_spec(j as u64, self.slots@[j].generation)) by {
                        lemma_pack(j as u64, self.slots@[j].generation);
                        lemma_pack(i as u64, g);
                    }
                }
                return Some(h);
            }
            i = i + 1;
        }
        if (len as u64) < SLOT_LIMIT {
            let h = pack(len as u64, 0);
            let ghost old_self = *self;
            self.slots.push(Slot { generation: 0, item: Some(v) });
            proof {
                lemma_free_count_push(old_self.slots@, Slot { generation: 0, item: Some(v) }, len as int);
                assert(free_count(self.slots@, len as int + 1) == free_count(self.slots@, len as int));
            }
            self.issued = Ghost(self.issued@.insert(h));
            proof {
                assert(!old_self.issued@.contains(h));
                assert forall|h2: u64| #[trigger] self.live(h2) <==> old_self.live(h2) || h2 == h by {
                    lemma_unpack(h2);
                }
                assert(self@ =~= old_self@.insert(h, v));
                assert forall|j: int| 0 <= j < self.slots@.len() && #[trigger] self.slots@[j].item is None
                    && self.slots@[j].generation < SLOT_LIMIT implies !self.issued@.contains(
                    pack_spec(j as u64, self.slots@[j].generation)) by {
                    lemma_pack(j as u64, self.slots@[j].generation);
                    lemma_pack(len as u64, 0);
                }
            }
            Some(h)
        } else {
            proof {
                lemma_free_count_none(self.slots@, len as int);
            }
            None
        }
    }

    /// Takes the item out of a live handle and retires the handle.
    pub fn remove(&mut self, h: u64) -> (r: Option<T>)
        requires
            old(self).wf(),
        ensures
            final(self).wf(),
            r is Some <==> old(self)@.contains_key(h),
            r matches Some(x) ==> x == old(self)@[h],
            final(self)@ == old(self)@.remove(h),
            final(self).issued() == old(self).issued(),
    {
        let i = h & 0xffff_ffff;
        let g = h >> 32;
        if i < self.slots.len() as u64 && self.slots[i as usize].generation == g
            && self.slots[i as usize].item.is_some() {
            let ghost old_self = *self;
            proof {
                lemma_unpack(h);
            }
            let mut slot = Slot { generation: g + 1, item: None };
            std::mem::swap(&mut self.slots[i as usize], &mut slot);
            proof {
                assert forall|h2: u64| #[trigger] self.live(h2) <==> old_self.live(h2) && h2 != h by {
                    lemma_unpack(h2);
                }
                assert(self@ =~= old_self@.remove(h));
                assert forall|j: int| 0 <= j < self.slots@.len() && #[trigger] self.slots@[j].item is None
                    && self.slots@[j].generation < SLOT_LIMIT implies !self.issued@.contains(
                    pack_spec(j as u64, self.slots@[j].generation)) by {
                    lemma_pack(j as u64, self.slots@[j].generation);
                    if j == i as int && self.issued@.contains(pack_spec(j as u64, self.slots@[j].generation)) {
                        assert(handle_generation(pack_spec(j as u64, self.slots@[j].generation)) <= g);
                    }
                }
            }
            slot.item
        } else {
            proof {
                assert(self@ =~= self@.remove(h));
            }
            None
        }
    }

    /// Puts a new item under a live handle and hands back the one it held.
    pub fn replace(&mut self, h: u64, v: T) -> (r: T)
        requires
            old(self).wf(),
            old(self)@.contains_key(h),
        ensures
            r == old(self)@[h],
            final(self).wf(),
            final(self)@ == old(self)@.insert(h, v),
            final(self).issued() == old(self).issued(),
    {
        let i = (h & 0xffff_ffff) as usize;
        let ghost old_self = *self;
        proof {
            lemma_unpack(h);
        }
        let mut slot = Slot { generation: h >> 32, item: Some(v) };
        std::mem::swap(&mut self.slots[i], &mut slot);
        proof {
            assert forall|h2: u64| #[trigger] self.live(h2) <==> old_self.live(h2) by {
                lemma_unpack(h2);
            }
            assert forall|h2: u64| self.live(h2) && h2 != h implies #[trigger] self.item(h2) == old_self.item(h2) by {
                lemma_unpack(h2);
            }
            assert(self@ =~= old_self@.insert(h, v));
        }
        match slot.item {
            Some(x) => x,
            None => {
                proof {
                    assert(false);
                }
                vstd::pervasive::unreached()
            },
        }
    }

    /// The live handles, each once.
    pub fn handles(&self) -> (r: Vec<u64>)
        requires
            self.wf(),
        ensures
            r@.no_duplicates(),
            forall|h: u64| r@.contains(h) <==> self@.contains_key(h),
    {
        let mut r: Vec<u64> = Vec::new();
        let len = self.slots.len();
        let mut i: usize = 0;
        while i < len
            invariant
                self.wf(),
                len == self.slots@.len(),
                i <= len,
                r@.no_duplicates(),
                forall|k: int| 0 <= k < r@.len() ==> handle_index(#[trigger] r@[k]) < i,
                forall|h: u64| r@.contains(h) <==> self@.contains_key(h) && handle_index(h) < i,
            decreases len - i,
        {
            if self.slots[i].item.is_some() {
                let h = pack(i as u64, self.slots[i].generation);
                proof {
                    assert forall|h2: u64| r@.push(h).contains(h2) <==> self@.contains_key(h2)
                        && handle_index(h2) < i + 1 by {
                        lemma_unpack(h2);
                        if r@.push(h).contains(h2) {
                            let k = choose|k: int| 0 <= k < r@.push(h).len() && r@.push(h)[k] == h2;
                            if k < r@.len() {
                                assert(r@.contains(h2));
                            }
                        }
                        if h2 == h {
                            assert(r@.push(h)[r@.len() as int] == h);
                            assert(self.live(h));
                        }
                        if self@.contains_key(h2) && handle_index(h2) == i {
                            assert(h2 == h);
                        }
                        if r@.contains(h2) {
                            let k = choose|k: int| 0 <= k < r@.len() && r@[k] == h2;
                            assert(r@.push(h)[k] == h2);
                        }
                    }
                    assert forall|k: int| 0 <= k < r@.len() implies r@[k] != h by {
                        assert(handle_index(r@[k]) < i);
                    }
                }
                r.push(h);
            } else {
                proof {
                    assert forall|h2: u64| r@.contains(h2) <==> self@.contains_key(h2)
                        && handle_index(h2) < i + 1 by {
                        lemma_unpack(h2);
                    }
                }
            }
            i = i + 1;
        }
        proof {
            assert forall|h: u64| self@.contains_key(h) implies handle_index(h) < i by {
                lemma_unpack(h);
            }
        }
        r
    }
}

} // verus!
