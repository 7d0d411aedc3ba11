//! Bounded, typed message queues that bind the modules of a process.
use vstd::prelude::*;
use crate::abi::{
    SystemError, FILAMENT_IO_DMA_OPTIONAL, FILAMENT_VAL_BYTES,
};
use crate::arena::Arena;

verus! {

/// The write flags a caller may set: raw, value, direct transfer, optional direct transfer.
pub const IO_MASK: u32 = 15;

/// Channel directions: producer, consumer, both ways.
pub const DIRECTION_PRODUCER: u32 = 0;
pub const DIRECTION_CONSUMER: u32 = 1;
pub const DIRECTION_BIDIRECTIONAL: u32 = 2;

/// What a channel is asked to be.
pub struct ChannelDefinition {
    pub schema: String,
    pub capacity: u64,
    pub msg_size: u64,
    pub direction: u32,
    pub root_type: u32,
}

/// One queued message, numbered in order of arrival.
pub struct Message {
    pub seq: u64,
    pub flags: u32,
    pub data: Vec<u8>,
}

pub struct Channel {
    owner: u64,
    schema: String,
    capacity: u64,
    msg_size: u64,
    direction: u32,
    root_type: u32,
    buffer_bytes: u64,
    next_seq: u64,
    queue: Vec<Message>,
}

/// A channel as the contracts see it.
pub ghost struct ChannelState {
    pub owner: u64,
    pub schema: Seq<char>,
    pub capacity: u64,
    pub msg_size: u64,
    pub direction: u32,
    pub root_type: u32,
    pub buffer_bytes: u64,
    pub next_seq: u64,
    pub queue: Seq<Message>,
}

impl Channel {
    pub closed spec fn view(self) -> ChannelState {
        ChannelState {
            owner: self.owner,
            schema: self.schema@,
            capacity: self.capacity,
            msg_size: self.msg_size,
            direction: self.direction,
            root_type: self.root_type,
            buffer_bytes: self.buffer_bytes,
            next_seq: self.next_seq,
            queue: self.queue@,
        }
    }

    fn placeholder() -> (r: Channel) {
        Channel {
            owner: 0,
            schema: String::new(),
            capacity: 0,
            msg_size: 0,
            direction: 0,
            root_type: 0,
            buffer_bytes: 0,
            next_seq: 0,
            queue: Vec::new(),
        }
    }
}

pub open spec fn valid_io_flags(flags: u32) -> bool {
    flags & !IO_MASK == 0
}

/// Messages in strictly increasing sequence order, all below the next number.
pub open spec fn queue_ordered(q: Seq<Message>, next_seq: u64) -> bool {
    &&& forall|i: int, j: int| 0 <= i < j < q.len() ==> #[trigger] q[i].seq < #[trigger] q[j].seq
    &&& forall|i: int| 0 <= i < q.len() ==> #[trigger] q[i].seq < next_seq
}

pub open spec fn channel_wf(c: ChannelState) -> bool {
    &&& c.capacity >= 1
    &&& c.msg_size >= 1
    &&& c.buffer_bytes >= c.capacity * c.msg_size
    &&& queue_ordered(c.queue, c.next_seq)
}

/// How many messages the backing buffer holds: the room a write that allows
/// a fallback copy may use once the declared capacity is reached.
pub open spec fn burst_slots(c: ChannelState) -> int {
    c.buffer_bytes as int / c.msg_size as int
}

/// The buffer behind a channel: never below the minimum bus size.
pub open spec fn buffer_size(capacity: u64, msg_size: u64, min: u64) -> int {
    if capacity * msg_size < min {
        min as int
    } else {
        capacity * msg_size
    }
}

/// Why a definition is refused, if it is.
pub open spec fn definition_error(capacity: u64, msg_size: u64, direction: u32, root_type: u32) -> bool {
    capacity == 0 || msg_size == 0 || direction > DIRECTION_BIDIRECTIONAL || root_type
        > FILAMENT_VAL_BYTES || capacity * msg_size > u64::MAX
}

/// What `write` answers.
pub open spec fn write_outcome(m: Map<u64, ChannelState>, h: u64, len: nat, flags: u32) -> Result<u64, SystemError> {
    if !m.contains_key(h) {
        Err(SystemError::NotFound)
    } else if !valid_io_flags(flags) || len > m[h].msg_size {
        Err(SystemError::Invalid)
    } else if m[h].next_seq == u64::MAX {
        Err(SystemError::Oom)
    } else if m[h].queue.len() >= m[h].capacity && (flags & FILAMENT_IO_DMA_OPTIONAL == 0
        || m[h].queue.len() >= burst_slots(m[h])) {
        Err(SystemError::Oom)
    } else {
        Ok(len as u64)
    }
}

/// The channels after a write of `data`.
pub open spec fn written(m: Map<u64, ChannelState>, h: u64, data: Vec<u8>, flags: u32) -> Map<u64, ChannelState> {
    if write_outcome(m, h, data@.len(), flags) is Ok {
        m.insert(
            h,
            ChannelState {
                next_seq: (m[h].next_seq + 1) as u64,
                queue: m[h].queue.push(Message { seq: m[h].next_seq, flags, data }),
                ..m[h]
            },
        )
    } else {
        m
    }
}

/// The position of the first message numbered `start` or later, or the length
/// when there is none.
pub open spec fn first_from(q: Seq<Message>, start: u64, i: int) -> int
    decreases q.len() - i,
{
    if i >= q.len() || i < 0 {
        q.len() as int
    } else if q[i].seq >= start {
        i
    } else {
        first_from(q, start, i + 1)
    }
}

/// What `read` answers.
pub open spec fn read_outcome(m: Map<u64, ChannelState>, h: u64, start: u64, cap: nat) -> Result<Message, SystemError> {
    if !m.contains_key(h) {
        Err(SystemError::NotFound)
    } else if first_from(m[h].queue, start, 0) >= m[h].queue.len() {
        Err(SystemError::NotFound)
    } else if m[h].queue[first_from(m[h].queue, start, 0)].data@.len() > cap {
        Err(SystemError::Invalid)
    } else {
        Ok(m[h].queue[first_from(m[h].queue, start, 0)])
    }
}

/// The channels after a read: the message handed out leaves its queue.
pub open spec fn read_done(m: Map<u64, ChannelState>, h: u64, start: u64, cap: nat) -> Map<u64, ChannelState> {
    if read_outcome(m, h, start, cap) is Ok {
        m.insert(h, ChannelState { queue: m[h].queue.remove(first_from(m[h].queue, start, 0)), ..m[h] })
    } else {
        m
    }
}

/// The channels a process leaves behind when it is reclaimed.
pub open spec fn without_owner(m: Map<u64, ChannelState>, owner: u64) -> Map<u64, ChannelState> {
    Map::new(|h: u64| m.contains_key(h) && m[h].owner != owner, |h: u64| m[h])
}

proof fn lemma_first_from_bounds(q: Seq<Message>, start: u64, i: int)
    requires
        0 <= i <= q.len(),
    ensures
        i <= first_from(q, start, i) <= q.len(),
        first_from(q, start, i) < q.len() ==> q[first_from(q, start, i)].seq >= start,
        forall|j: int| i <= j < first_from(q, start, i) ==> q[j].seq < start,
    decreases q.len() - i,
{
    if i < q.len() && q[i].seq < start {
        lemma_first_from_bounds(q, start, i + 1);
    }
}

/// All channels of all processes.
pub struct ChannelTable {
    chans: Arena<Channel>,
    min_buffer: u64,
}

impl ChannelTable {
    pub closed spec fn view(self) -> Map<u64, ChannelState> {
        Map::new(|h: u64| self.chans@.contains_key(h), |h: u64| self.chans@[h]@)
    }

    pub closed spec fn full(self) -> bool {
        self.chans.full()
    }

    /// How many more channels fit.
    pub closed spec fn room(self) -> nat {
        self.chans.room()
    }

    /// The smallest buffer behind any channel.
    pub closed spec fn min_buffer(self) -> u64 {
        self.min_buffer
    }

    /// Every handle handed out so far.
    pub closed spec fn issued(self) -> Set<u64> {
        self.chans.issued()
    }

    pub closed spec fn wf(self) -> bool {
        &&& self.chans.wf()
        &&& forall|h: u64| #[trigger] self.chans@.contains_key(h) ==> channel_wf(self.chans@[h]@)
    }

    /// A live channel's handle was handed out by this table.
    pub proof fn lemma_live_issued_view(self, h: u64)
        requires
            self.wf(),
            self@.contains_key(h),
        ensures
            self.issued().contains(h),
    {
        self.chans.lemma_live_issued(h);
    }

    /// An empty table whose channels are backed by at least `min_buffer` bytes.
    pub fn new(min_buffer: u64) -> (r: Self)
        ensures
            r.wf(),
            r@ == Map::<u64, ChannelState>::empty(),
            r.min_buffer() == min_buffer,
            r.room() == crate::arena::SLOT_LIMIT,
            !r.full(),
    {
        let r = ChannelTable { chans: Arena::new(), min_buffer };
        assert(r@ =~= Map::<u64, ChannelState>::empty());
        r
    }

    /// Registers a queue for `owner`, backed by at least the minimum bus size.
    pub fn create(&mut self, owner: u64, def: ChannelDefinition) -> (r: Result<u64, SystemError>)
        requires
            old(self).wf(),
        ensures
            final(self).wf(),
            final(self).min_buffer() == old(self).min_buffer(),
            r is Ok ==> final(self).room() + 1 == old(self).room(),
            r == Err::<u64, SystemError>(SystemError::Oom) ==> old(self).room() == 0,
            r == Err::<u64, SystemError>(SystemError::Invalid) <==> definition_error(
                def.capacity,
                def.msg_size,
                def.direction,
                def.root_type,
            ),
            r == Err::<u64, SystemError>(SystemError::Oom) <==> !definition_error(
                def.capacity,
                def.msg_size,
                def.direction,
                def.root_type,
            ) && old(self).full(),
            r is Ok || r == Err::<u64, SystemError>(SystemError::Invalid) || r == Err::<u64, SystemError>(SystemError::Oom),
            r matches Ok(h) ==> {
                &&& !old(self).issued().contains(h)
                &&& final(self).issued() == old(self).issued().insert(h)
                &&& final(self)@ == old(self)@.insert(
                    h,
                    ChannelState {
                        owner,
                        schema: def.schema@,
                        capacity: def.capacity,
                        msg_size: def.msg_size,
                        direction: def.direction,
                        root_type: def.root_type,
                        buffer_bytes: buffer_size(def.capacity, def.msg_size, old(self).min_buffer()) as u64,
                        next_seq: 0,
                        queue: Seq::empty(),
                    },
                )
            },
            r is Err ==> final(self)@ == old(self)@ && final(self).issued() == old(self).issued(),
    {
        if def.capacity == 0 || def.msg_size == 0 || def.direction > DIRECTION_BIDIRECTIONAL
            || def.root_type > FILAMENT_VAL_BYTES || def.capacity > u64::MAX / def.msg_size {
            proof {
                if def.capacity != 0 && def.msg_size != 0 && def.capacity > u64::MAX / def.msg_size {
                    assert(def.capacity * def.msg_size > u64::MAX) by (nonlinear_arith)
                        requires
                            def.capacity > u64::MAX / def.msg_size,
                            def.msg_size > 0,
                    ;
                }
            }
            return Err(SystemError::Invalid);
        }
        proof {
            assert(def.capacity * def.msg_size <= u64::MAX) by (nonlinear_arith)
                requires
                    def.capacity <= u64::MAX / def.msg_size,
                    def.msg_size > 0,
            ;
        }
        let bytes = def.capacity * def.msg_size;
        let buffer_bytes = if bytes < self.min_buffer {
            self.min_buffer
        } else {
            bytes
        };
        let c = Channel {
            owner,
            schema: def.schema,
            capacity: def.capacity,
            msg_size: def.msg_size,
            direction: def.direction,
            root_type: def.root_type,
            buffer_bytes,
            next_seq: 0,
            queue: Vec::new(),
        };
        let ghost cv = c@;
        let ghost old_self = *self;
        match self.chans.insert(c) {
            Some(h) => {
                proof {
                    assert(self@ =~= old_self@.insert(h, cv));
                }
                Ok(h)
            },
            None => {
                proof {
                    assert(self@ =~= old_self@);
                }
                Err(SystemError::Oom)
            },
        }
    }

    /// The state of one channel.
    pub fn capacity_of(&self, h: u64) -> (r: Option<(u64, u64)>)
        requires
            self.wf(),
        ensures
            r is Some <==> self@.contains_key(h),
            r matches Some(p) ==> p.0 == self@[h].capacity && p.1 == self@[h].queue.len(),
    {
        match self.chans.get(h) {
            Some(c) => Some((c.capacity, c.queue.len() as u64)),
            None => None,
        }
    }

    /// Appends one message. Once the declared capacity is reached a write fails
    /// `Oom`, unless it allows a fallback copy and the backing buffer has room.
    pub fn write(&mut self, h: u64, data: Vec<u8>, flags: u32) -> (r: Result<u64, SystemError>)
        requires
            old(self).wf(),
        ensures
            final(self).wf(),
            r == write_outcome(old(self)@, h, data@.len(), flags),
            final(self)@ == written(old(self)@, h, data, flags),
            final(self).issued() == old(self).issued(),
            final(self).min_buffer() == old(self).min_buffer(),
    {
        let len = data.len();
        match self.chans.get(h) {
            None => {
                return Err(SystemError::NotFound);
            },
            Some(c) => {
                if flags & !IO_MASK != 0 || len as u64 > c.msg_size {
                    return Err(SystemError::Invalid);
                }
                if c.next_seq == u64::MAX {
                    return Err(SystemError::Oom);
                }
                if c.queue.len() as u64 >= c.capacity && (flags & FILAMENT_IO_DMA_OPTIONAL == 0
                    || c.queue.len() as u64 >= c.buffer_bytes / c.msg_size) {
                    return Err(SystemError::Oom);
                }
            },
        }
        let ghost old_self = *self;
        let mut c = self.chans.replace(h, Channel::placeholder());
        let seq = c.next_seq;
        c.queue.push(Message { seq, flags, data });
        c.next_seq = seq + 1;
        let ghost cv = c@;
        self.chans.replace(h, c);
        proof {
            assert(self@ =~= old_self@.insert(h, cv));
            assert(cv == ChannelState {
                next_seq: (old_self@[h].next_seq + 1) as u64,
                queue: old_self@[h].queue.push(Message { seq: old_self@[h].next_seq, flags, data }),
                ..old_self@[h]
            });
            assert(self.chans@.contains_key(h));
        }
        Ok(len as u64)
    }

    /// Hands out the oldest message numbered `start` or later, if one is queued
    /// and fits in `cap` bytes; it leaves the queue.
    pub fn read(&mut self, h: u64, start: u64, cap: u64) -> (r: Result<Message, SystemError>)
        requires
            old(self).wf(),
        ensures
            final(self).wf(),
            r == read_outcome(old(self)@, h, start, cap as nat),
            final(self)@ == read_done(old(self)@, h, start, cap as nat),
            final(self).issued() == old(self).issued(),
            final(self).min_buffer() == old(self).min_buffer(),
    {
        let pos: usize;
        match self.chans.get(h) {
            None => {
                return Err(SystemError::NotFound);
            },
            Some(c) => {
                let ghost q = c.queue@;
                let mut i: usize = 0;
                while i < c.queue.len() && c.queue[i].seq < start
                    invariant
                        q == c.queue@,
                        i <= q.len(),
                        first_from(q, start, 0) == first_from(q, start, i as int),
                    decreases q.len() - i,
                {
                    i = i + 1;
                }
                proof {
                    lemma_first_from_bounds(q, start, 0);
                }
                if i >= c.queue.len() {
                    return Err(SystemError::NotFound);
                }
                if c.queue[i].data.len() as u64 > cap {
                    return Err(SystemError::Invalid);
                }
                pos = i;
            },
        }
        let ghost old_self = *self;
        let mut c = self.chans.replace(h, Channel::placeholder());
        let m = c.queue.remove(pos);
        let ghost cv = c@;
        self.chans.replace(h, c);
        proof {
            assert(self@ =~= old_self@.insert(h, cv));
            assert(self.chans@.contains_key(h));
            let q = old_self@[h].queue;
            assert forall|a: int, b: int| 0 <= a < b < cv.queue.len() implies #[trigger] cv.queue[a].seq
                < #[trigger] cv.queue[b].seq by {
                if a >= pos {
                    assert(cv.queue[a] == q[a + 1]);
                }
                if b >= pos {
                    assert(cv.queue[b] == q[b + 1]);
                }
            }
            assert forall|a: int| 0 <= a < cv.queue.len() implies #[trigger] cv.queue[a].seq < cv.next_seq by {
                if a >= pos {
                    assert(cv.queue[a] == q[a + 1]);
                }
            }
        }
        Ok(m)
    }

    /// Removes every channel that `owner` created.
    pub fn release_owner(&mut self, owner: u64)
        requires
            old(self).wf(),
        ensures
            final(self).wf(),
            final(self)@ == without_owner(old(self)@, owner),
            final(self).issued() == old(self).issued(),
            final(self).min_buffer() == old(self).min_buffer(),
    {
        let hs = self.chans.handles();
        let ghost m = self@;
        let mut i: usize = 0;
        proof {
            assert(hs@.subrange(0, hs@.len() as int) =~= hs@);
        }
        while i < hs.len()
            invariant
                self.wf(),
                i <= hs@.len(),
                forall|h: u64| hs@.contains(h) <==> m.contains_key(h),
                forall|h: u64| #[trigger] self@.contains_key(h) ==> m.contains_key(h) && self@[h] == m[h],
                forall|h: u64| #[trigger] m.contains_key(h) && !hs@.subrange(i as int, hs@.len() as int).contains(h)
                    ==> (self@.contains_key(h) <==> m[h].owner != owner),
                forall|h: u64| #[trigger] m.contains_key(h) && m[h].owner != owner ==> self@.contains_key(h),
                self.issued() == old(self).issued(),
                self.min_buffer() == old(self).min_buffer(),
            decreases hs@.len() - i,
        {
            let h = hs[i];
            let ghost old_self = *self;
            let owned = match self.chans.get(h) {
                Some(c) => c.owner == owner,
                None => false,
            };
            if owned {
                self.chans.remove(h);
                proof {
                    assert(self@ =~= old_self@.remove(h));
                }
            }
            proof {
                assert forall|h2: u64| #[trigger] m.contains_key(h2) && !hs@.subrange(i as int + 1, hs@.len() as int).contains(h2)
                    implies (self@.contains_key(h2) <==> m[h2].owner != owner) by {
                    if h2 != h && hs@.subrange(i as int, hs@.len() as int).contains(h2) {
                        let k = choose|k: int| 0 <= k < hs@.len() - i && hs@.subrange(i as int, hs@.len() as int)[k] == h2;
                        assert(k != 0);
                        assert(hs@.subrange(i as int + 1, hs@.len() as int)[k - 1] == h2);
                    }
                    if h2 == h {
                        assert(hs@.contains(h));
                    }
                }
            }
            i = i + 1;
        }
        proof {
            assert(self@ =~= without_owner(m, owner));
        }
    }
}

/// Capacity: a write to a channel that holds as many messages as its
/// capacity answers one of three things, each leaving nothing half done:
/// `Invalid` (bad flags or an oversized message) and `Oom` leave every channel
/// as it was; success accepts the whole message as the newest one, behind all
/// that were queued before it. With default flags a well-formed write fails
/// `Oom`; with a fallback copy allowed it succeeds or fails `Oom`. No data is
/// dropped.
pub proof fn lemma_full_channel_write(m: Map<u64, ChannelState>, h: u64, data: Vec<u8>, flags: u32)
    requires
        m.contains_key(h),
        m[h].queue.len() >= m[h].capacity,
    ensures
        ({
            let r = write_outcome(m, h, data@.len(), flags);
            ||| r == Ok::<u64, SystemError>(data@.len() as u64)
            ||| r == Err::<u64, SystemError>(SystemError::Oom)
            ||| r == Err::<u64, SystemError>(SystemError::Invalid)
        }),
        write_outcome(m, h, data@.len(), flags) == Err::<u64, SystemError>(SystemError::Invalid) <==> !valid_io_flags(flags)
            || data@.len() > m[h].msg_size,
        valid_io_flags(flags) && data@.len() <= m[h].msg_size && flags & FILAMENT_IO_DMA_OPTIONAL == 0
            ==> write_outcome(m, h, data@.len(), flags) == Err::<u64, SystemError>(SystemError::Oom),
        write_outcome(m, h, data@.len(), flags) is Err ==> written(m, h, data, flags) == m,
        write_outcome(m, h, data@.len(), flags) is Ok ==> {
            &&& written(m, h, data, flags)[h].queue.len() == m[h].queue.len() + 1
            &&& written(m, h, data, flags)[h].queue.last().data == data
            &&& written(m, h, data, flags)[h].queue.drop_last() == m[h].queue
        },
{
    if write_outcome(m, h, data@.len(), flags) is Ok {
        assert(written(m, h, data, flags)[h].queue.drop_last() =~= m[h].queue);
    }
}

/// First in, first out: a read from the start of the sequence hands out the
/// oldest queued message, and a message written to an empty channel is the
/// one the next such read returns.
pub proof fn lemma_fifo(m: Map<u64, ChannelState>, h: u64, data: Vec<u8>, flags: u32, cap: nat)
    requires
        m.contains_key(h),
        channel_wf(m[h]),
        write_outcome(m, h, data@.len(), flags) is Ok,
        data@.len() <= cap,
    ensures
        m[h].queue.len() > 0 && m[h].queue[0].data@.len() <= cap ==> read_outcome(m, h, 0, cap) == Ok::<Message, SystemError>(m[h].queue[0]),
        m[h].queue.len() == 0 ==> read_outcome(written(m, h, data, flags), h, 0, cap) == Ok::<Message, SystemError>(
            Message { seq: m[h].next_seq, flags, data },
        ),
{
    let w = written(m, h, data, flags);
    assert(first_from(m[h].queue, 0, 0) == 0 || m[h].queue.len() == 0);
    if m[h].queue.len() == 0 {
        assert(w[h].queue.len() == 1);
        assert(first_from(w[h].queue, 0, 0) == 0);
    }
}

} // verus!
