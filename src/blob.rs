//! Reference-counted shared-memory regions addressed by opaque handles.
use vstd::prelude::*;
use crate::abi::{is_error_code, SystemError};
use crate::arena::Arena;

verus! {

/// The permission bits a mapping may ask for: read, write, execute.
pub const MMAP_MASK: u32 = 7;

/// One region: who allocated it, where it lies, how large it is, what mappings
/// it allows, and how many references hold it.
#[derive(Clone, Copy, Debug, PartialEq, Eq, Structural)]
pub struct BlobEntry {
    pub owner: u64,
    pub address: u64,
    pub size: u64,
    pub flags: u32,
    pub refcount: u64,
}

pub open spec fn valid_mmap_flags(flags: u32) -> bool {
    flags & !MMAP_MASK == 0
}

/// The bytes reserved for a request: never below the minimum blob size.
pub open spec fn reserved_size(size: u64, min: u64) -> u64 {
    if size < min {
        min
    } else {
        size
    }
}

/// What `map` answers for a handle and the permissions asked for.
pub open spec fn map_outcome(m: Map<u64, BlobEntry>, h: u64, flags: u32) -> Result<u64, SystemError> {
    if !m.contains_key(h) {
        Err(SystemError::NotFound)
    } else if flags & m[h].flags != flags {
        Err(SystemError::Perm)
    } else {
        Ok(m[h].address)
    }
}

/// The largest reference count: the largest non-negative signed status.
pub const MAX_REFCOUNT: u64 = 0x7fff_ffff_ffff_ffff;

/// What `retain` answers: the new reference count, which never leaves the
/// range of a successful signed status.
pub open spec fn retain_outcome(m: Map<u64, BlobEntry>, h: u64) -> Result<u64, SystemError> {
    if !m.contains_key(h) {
        Err(SystemError::NotFound)
    } else if m[h].refcount >= MAX_REFCOUNT {
        Err(SystemError::Invalid)
    } else {
        Ok((m[h].refcount + 1) as u64)
    }
}

/// The blobs after `retain`.
pub open spec fn retained(m: Map<u64, BlobEntry>, h: u64) -> Map<u64, BlobEntry> {
    match retain_outcome(m, h) {
        Ok(n) => m.insert(h, BlobEntry { refcount: n, ..m[h] }),
        Err(_) => m,
    }
}

/// What `release` answers: the reference count left.
pub open spec fn release_outcome(m: Map<u64, BlobEntry>, h: u64) -> Result<u64, SystemError> {
    if !m.contains_key(h) {
        Err(SystemError::NotFound)
    } else {
        Ok((m[h].refcount - 1) as u64)
    }
}

/// The blobs after `release`: the region goes once its count reaches zero.
pub open spec fn released(m: Map<u64, BlobEntry>, h: u64) -> Map<u64, BlobEntry> {
    if !m.contains_key(h) {
        m
    } else if m[h].refcount <= 1 {
        m.remove(h)
    } else {
        m.insert(h, BlobEntry { refcount: (m[h].refcount - 1) as u64, ..m[h] })
    }
}

/// The blobs after the owner's own reference is dropped from each blob in `done`
/// that it allocated.
pub open spec fn owner_refs_dropped_in(m: Map<u64, BlobEntry>, owner: u64, done: Set<u64>) -> Map<u64, BlobEntry> {
    Map::new(
        |h: u64| m.contains_key(h) && !(done.contains(h) && m[h].owner == owner && m[h].refcount <= 1),
        |h: u64|
            if done.contains(h) && m[h].owner == owner {
                BlobEntry { refcount: (m[h].refcount - 1) as u64, ..m[h] }
            } else {
                m[h]
            },
    )
}

/// The blobs after a process is reclaimed: each of its blobs loses the owner's
/// reference and is released if no other process retained it.
pub open spec fn owner_refs_dropped(m: Map<u64, BlobEntry>, owner: u64) -> Map<u64, BlobEntry> {
    owner_refs_dropped_in(m, owner, m.dom())
}

/// The blob allocator.
pub struct BlobTable {
    blobs: Arena<BlobEntry>,
    next_address: u64,
    min_size: u64,
}

impl BlobTable {
    pub closed spec fn view(self) -> Map<u64, BlobEntry> {
        self.blobs@
    }

    /// Where the next region will be placed.
    pub closed spec fn next_address(self) -> u64 {
        self.next_address
    }

    /// The smallest region the allocator reserves.
    pub closed spec fn min_size(self) -> u64 {
        self.min_size
    }

    /// Every handle the allocator has handed out.
    pub closed spec fn issued(self) -> Set<u64> {
        self.blobs.issued()
    }

    pub closed spec fn full(self) -> bool {
        self.blobs.full()
    }

    pub closed spec fn wf(self) -> bool {
        &&& self.blobs.wf()
        &&& forall|h: u64| #[trigger] self.blobs@.contains_key(h) ==> self.blobs@[h].refcount >= 1
    }

    /// A live blob's handle was handed out by this allocator.
    pub proof fn lemma_live_issued(self, h: u64)
        requires
            self.wf(),
            self@.contains_key(h),
        ensures
            self.issued().contains(h),
    {
        self.blobs.lemma_live_issued(h);
    }

    /// An empty allocator whose regions start at `base` and are never smaller
    /// than `min_size` bytes.
    pub fn new(base: u64, min_size: u64) -> (r: Self)
        ensures
            r.wf(),
            r@ == Map::<u64, BlobEntry>::empty(),
            r.next_address() == base,
            r.min_size() == min_size,
            r.issued() == Set::<u64>::empty(),
    {
        BlobTable { blobs: Arena::new(), next_address: base, min_size }
    }

    /// Reserves a region of at least the minimum blob size for `owner`.
    pub fn allocate(&mut self, owner: u64, size: u64, flags: u32) -> (r: Result<u64, SystemError>)
        requires
            old(self).wf(),
        ensures
            final(self).wf(),
            final(self).min_size() == old(self).min_size(),
            r == Err::<u64, SystemError>(SystemError::Invalid) <==> !valid_mmap_flags(flags),
            r == Err::<u64, SystemError>(SystemError::Oom) <==> valid_mmap_flags(flags) && (
            old(self).next_address() > u64::MAX - reserved_size(size, old(self).min_size()) || old(self).full()),
            r is Ok || r == Err::<u64, SystemError>(SystemError::Invalid) || r == Err::<u64, SystemError>(SystemError::Oom),
            r matches Ok(h) ==> {
                &&& !old(self).issued().contains(h)
                &&& final(self).issued() == old(self).issued().insert(h)
                &&& final(self)@ == old(self)@.insert(
                    h,
                    BlobEntry {
                        owner,
                        address: old(self).next_address(),
                        size: reserved_size(size, old(self).min_size()),
                        flags,
                        refcount: 1,
                    },
                )
                &&& final(self).next_address() == old(self).next_address() + reserved_size(size, old(self).min_size())
            },
            r is Err ==> final(self)@ == old(self)@ && final(self).next_address()
                == old(self).next_address() && final(self).issued() == old(self).issued(),
    {
        if flags & !MMAP_MASK != 0 {
            return Err(SystemError::Invalid);
        }
        let reserved = if size < self.min_size {
            self.min_size
        } else {
            size
        };
        if self.next_address > u64::MAX - reserved {
            return Err(SystemError::Oom);
        }
        let entry = BlobEntry { owner, address: self.next_address, size: reserved, flags, refcount: 1 };
        match self.blobs.insert(entry) {
            Some(h) => {
                self.next_address = self.next_address + reserved;
                Ok(h)
            },
            None => Err(SystemError::Oom),
        }
    }

    /// The entry under a live handle.
    pub fn get(&self, h: u64) -> (r: Option<BlobEntry>)
        requires
            self.wf(),
        ensures
            r is Some <==> self@.contains_key(h),
            r matches Some(e) ==> e == self@[h],
    {
        match self.blobs.get(h) {
            Some(e) => Some(*e),
            None => None,
        }
    }

    /// The address of a blob in the calling context, if its permissions allow
    /// the mapping asked for.
    pub fn map(&self, h: u64, flags: u32) -> (r: Result<u64, SystemError>)
        requires
            self.wf(),
        ensures
            r == map_outcome(self@, h, flags),
    {
        match self.blobs.get(h) {
            None => Err(SystemError::NotFound),
            Some(e) => {
                if flags & e.flags != flags {
                    Err(SystemError::Perm)
                } else {
                    Ok(e.address)
                }
            },
        }
    }

    /// Adds a reference and returns the new count.
    pub fn retain(&mut self, h: u64) -> (r: Result<u64, SystemError>)
        requires
            old(self).wf(),
        ensures
            final(self).wf(),
            r == retain_outcome(old(self)@, h),
            final(self)@ == retained(old(self)@, h),
            final(self).next_address() == old(self).next_address(),
            final(self).min_size() == old(self).min_size(),
            final(self).issued() == old(self).issued(),
    {
        match self.blobs.get(h) {
            None => Err(SystemError::NotFound),
            Some(e) => {
                if e.refcount >= MAX_REFCOUNT {
                    return Err(SystemError::Invalid);
                }
                let n = e.refcount + 1;
                let updated = BlobEntry { refcount: n, ..*e };
                self.blobs.replace(h, updated);
                Ok(n)
            },
        }
    }

    /// Drops a reference and returns the count left; at zero the region is
    /// released and the handle goes stale.
    pub fn release(&mut self, h: u64) -> (r: Result<u64, SystemError>)
        requires
            old(self).wf(),
        ensures
            final(self).wf(),
            r == release_outcome(old(self)@, h),
            r == Ok::<u64, SystemError>(0) <==> old(self)@.contains_key(h) && old(self)@[h].refcount <= 1,
            final(self)@ == released(old(self)@, h),
            final(self).next_address() == old(self).next_address(),
            final(self).min_size() == old(self).min_size(),
            final(self).issued() == old(self).issued(),
    {
        match self.blobs.get(h) {
            None => Err(SystemError::NotFound),
            Some(e) => {
                let e = *e;
                if e.refcount <= 1 {
                    self.blobs.remove(h);
                    Ok(0)
                } else {
                    let n = e.refcount - 1;
                    self.blobs.replace(h, BlobEntry { refcount: n, ..e });
                    Ok(n)
                }
            },
        }
    }

    /// Drops the reference of a reclaimed process from every blob it allocated.
    pub fn release_owner(&mut self, owner: u64)
        requires
            old(self).wf(),
        ensures
            final(self).wf(),
            final(self)@ == owner_refs_dropped(old(self)@, owner),
            final(self).next_address() == old(self).next_address(),
            final(self).min_size() == old(self).min_size(),
            final(self).issued() == old(self).issued(),
    {
        let hs = self.blobs.handles();
        let ghost m = self@;
        let mut i: usize = 0;
        proof {
            assert(self@ =~= owner_refs_dropped_in(m, owner, hs@.subrange(0, 0).to_set()));
        }
        while i < hs.len()
            invariant
                self.wf(),
                i <= hs@.len(),
                hs@.no_duplicates(),
                forall|h: u64| hs@.contains(h) <==> m.contains_key(h),
                self@ == owner_refs_dropped_in(m, owner, hs@.subrange(0, i as int).to_set()),
                self.next_address() == old(self).next_address(),
                self.min_size() == old(self).min_size(),
                self.issued() == old(self).issued(),
            decreases hs@.len() - i,
        {
            let h = hs[i];
            let ghost done = hs@.subrange(0, i as int).to_set();
            let ghost done2 = hs@.subrange(0, i as int + 1).to_set();
            proof {
                assert(hs@.subrange(0, i as int + 1) =~= hs@.subrange(0, i as int).push(h));
                hs@.subrange(0, i as int).lemma_push_to_set_commute(h);
                assert(!done.contains(h)) by {
                    if done.contains(h) {
                        let k = choose|k: int| 0 <= k < i && hs@.subrange(0, i as int)[k] == h;
                        assert(hs@[k] == hs@[i as int]);
                    }
                }
                assert(hs@.contains(h)) by {
                    assert(hs@[i as int] == h);
                }
            }
            match self.blobs.get(h) {
                Some(e) => {
                    let e = *e;
                    if e.owner == owner {
                        if e.refcount <= 1 {
                            self.blobs.remove(h);
                        } else {
                            self.blobs.replace(h, BlobEntry { refcount: e.refcount - 1, ..e });
                        }
                    }
                },
                None => {},
            }
            proof {
                assert(self@ =~= owner_refs_dropped_in(m, owner, done2));
            }
            i = i + 1;
        }
        proof {
            assert(hs@.subrange(0, hs@.len() as int) =~= hs@);
            assert(hs@.to_set() =~= m.dom());
        }
    }
}

/// The blobs after `k` retains of `h`.
pub open spec fn retained_times(m: Map<u64, BlobEntry>, h: u64, k: nat) -> Map<u64, BlobEntry>
    decreases k,
{
    if k == 0 {
        m
    } else {
        retained(retained_times(m, h, (k - 1) as nat), h)
    }
}

/// Repeated retains: while the count stays within the signed status range,
/// each of `k` retains of a live blob succeeds, answers a count that no error
/// code shares, and raises the count by exactly one, so the count strictly
/// increases and ends `k` above where it started.
pub proof fn lemma_retain_repeated(m: Map<u64, BlobEntry>, h: u64, k: nat)
    requires
        m.contains_key(h),
        m[h].refcount + k <= MAX_REFCOUNT,
    ensures
        retained_times(m, h, k).dom() == m.dom(),
        retained_times(m, h, k)[h].refcount == m[h].refcount + k,
        forall|j: nat|
            j < k ==> {
                &&& #[trigger] retain_outcome(retained_times(m, h, j), h) == Ok::<u64, SystemError>((m[h].refcount + j + 1) as u64)
                &&& !is_error_code((m[h].refcount + j + 1) as i64)
                &&& retained_times(m, h, j + 1)[h].refcount > retained_times(m, h, j)[h].refcount
            },
    decreases k,
{
    if k > 0 {
        let k1 = (k - 1) as nat;
        lemma_retain_repeated(m, h, k1);
        let prev = retained_times(m, h, k1);
        assert(retained(prev, h).dom() =~= prev.dom());
        assert forall|j: nat| j < k implies {
            &&& #[trigger] retain_outcome(retained_times(m, h, j), h) == Ok::<u64, SystemError>((m[h].refcount + j + 1) as u64)
            &&& !is_error_code((m[h].refcount + j + 1) as i64)
            &&& retained_times(m, h, j + 1)[h].refcount > retained_times(m, h, j)[h].refcount
        } by {
            if j < k1 {
            } else {
                assert(j == k1);
                assert(retained_times(m, h, j + 1) == retained(prev, h));
            }
        }
    }
}

} // verus!
