//! Append-only per-topic event logs, read through cursors.
use vstd::prelude::*;
use crate::abi::{SystemError, FILAMENT_FMT_TEXT};
use crate::arena::Arena;
use crate::event::{event_bytes, event_len, event_valid, Event, EventView};

verus! {

/// A read position: the events it will yield, in order, and how many it has
/// yielded.
pub struct Cursor {
    owner: u64,
    entries: Vec<usize>,
    pos: usize,
}

pub ghost struct CursorState {
    pub owner: u64,
    pub entries: Seq<usize>,
    pub pos: nat,
}

impl Cursor {
    pub closed spec fn view(self) -> CursorState {
        CursorState { owner: self.owner, entries: self.entries@, pos: self.pos as nat }
    }

    fn placeholder() -> Cursor {
        Cursor { owner: 0, entries: Vec::new(), pos: 0 }
    }
}

/// An event falls in a cursor's range: its topic, and a timestamp within the
/// bounds (0 leaves a bound open; both bounds are inclusive).
pub open spec fn event_matches(e: EventView, topic: Seq<u8>, start: u64, end: u64) -> bool {
    &&& e.topic == topic
    &&& start == 0 || e.timestamp >= start
    &&& end == 0 || e.timestamp <= end
}

/// Event `a` comes before event `b`: by timestamp in the order asked for, ties
/// broken by append order.
pub open spec fn precedes(evs: Seq<EventView>, desc: bool, a: int, b: int) -> bool {
    if desc {
        evs[a].timestamp > evs[b].timestamp || (evs[a].timestamp == evs[b].timestamp && a < b)
    } else {
        evs[a].timestamp < evs[b].timestamp || (evs[a].timestamp == evs[b].timestamp && a < b)
    }
}

pub open spec fn sorted_by(evs: Seq<EventView>, desc: bool, s: Seq<usize>) -> bool {
    forall|i: int, j: int| 0 <= i < j < s.len() ==> precedes(evs, desc, #[trigger] s[i] as int, #[trigger] s[j] as int)
}

/// The entries a cursor opened with these arguments yields: matching events,
/// in order, the first `limit` of them (0: no limit).
pub open spec fn selection(
    evs: Seq<EventView>,
    topic: Seq<u8>,
    start: u64,
    end: u64,
    limit: u64,
    desc: bool,
    s: Seq<usize>,
) -> bool {
    &&& forall|i: int| 0 <= i < s.len() ==> #[trigger] s[i] < evs.len() && event_matches(evs[s[i] as int], topic, start, end)
    &&& sorted_by(evs, desc, s)
    &&& limit != 0 ==> s.len() <= limit
    &&& forall|j: int|
        0 <= j < evs.len() && event_matches(evs[j], topic, start, end) && !s.contains(j as usize) ==> {
            &&& limit != 0 && s.len() == limit
            &&& forall|i: int| 0 <= i < s.len() ==> precedes(evs, desc, #[trigger] s[i] as int, j)
        }
}

/// Why `open` refuses its arguments, if it does.
pub open spec fn open_invalid(topic: Seq<u8>, start: u64, end: u64, max_topic: u64) -> bool {
    topic.len() > max_topic || (start != 0 && end != 0 && start > end)
}

/// How many of the entries from `i` on fit, whole, in `cap` bytes.
pub open spec fn fit_count(evs: Seq<EventView>, s: Seq<usize>, i: int, cap: int) -> nat
    decreases s.len() - i,
{
    if i < 0 || i >= s.len() || event_len(evs[s[i] as int]) > cap {
        0
    } else {
        1 + fit_count(evs, s, i + 1, cap - event_len(evs[s[i] as int]))
    }
}

/// The framed bytes of `n` entries from `i` on, one after another.
pub open spec fn batch(evs: Seq<EventView>, s: Seq<usize>, i: int, n: nat) -> Seq<u8>
    decreases n,
{
    if n == 0 {
        Seq::empty()
    } else {
        batch(evs, s, i, (n - 1) as nat) + event_bytes(evs[s[i + n - 1] as int])
    }
}

/// What `next` answers.
pub open spec fn next_outcome(evs: Seq<EventView>, cs: Map<u64, CursorState>, h: u64, cap: u64) -> Result<Seq<u8>, SystemError> {
    if !cs.contains_key(h) || cs[h].pos >= cs[h].entries.len() {
        Err(SystemError::NotFound)
    } else if fit_count(evs, cs[h].entries, cs[h].pos as int, cap as int) == 0 {
        Err(SystemError::Invalid)
    } else {
        Ok(batch(evs, cs[h].entries, cs[h].pos as int, fit_count(evs, cs[h].entries, cs[h].pos as int, cap as int)))
    }
}

/// The cursors after `next`.
pub open spec fn next_done(evs: Seq<EventView>, cs: Map<u64, CursorState>, h: u64, cap: u64) -> Map<u64, CursorState> {
    if next_outcome(evs, cs, h, cap) is Ok {
        cs.insert(h, CursorState { pos: cs[h].pos + fit_count(evs, cs[h].entries, cs[h].pos as int, cap as int), ..cs[h] })
    } else {
        cs
    }
}

proof fn lemma_precedes_order(evs: Seq<EventView>, desc: bool, a: int, b: int, c: int)
    ensures
        precedes(evs, desc, a, b) && precedes(evs, desc, b, c) ==> precedes(evs, desc, a, c),
        a != b ==> precedes(evs, desc, a, b) || precedes(evs, desc, b, a),
        !(precedes(evs, desc, a, b) && precedes(evs, desc, b, a)),
{
}

proof fn lemma_fit_count_bound(evs: Seq<EventView>, s: Seq<usize>, i: int, cap: int)
    requires
        0 <= i <= s.len(),
    ensures
        i + fit_count(evs, s, i, cap) <= s.len(),
    decreases s.len() - i,
{
    if i < s.len() && event_len(evs[s[i] as int]) <= cap {
        lemma_fit_count_bound(evs, s, i + 1, cap - event_len(evs[s[i] as int]));
    }
}

/// The cursors left once every cursor of `owner` is closed.
pub open spec fn cursors_without_owner(m: Map<u64, CursorState>, owner: u64) -> Map<u64, CursorState> {
    Map::new(|h: u64| m.contains_key(h) && m[h].owner != owner, |h: u64| m[h])
}

/// All timelines, and the cursors open on them.
pub struct Timeline {
    events: Vec<Event>,
    cursors: Arena<Cursor>,
    max_topic: u64,
}

impl Timeline {
    /// Every event appended so far, in append order.
    pub closed spec fn events(self) -> Seq<EventView> {
        self.events@.map_values(|e: Event| e@)
    }

    pub closed spec fn cursors(self) -> Map<u64, CursorState> {
        Map::new(|h: u64| self.cursors@.contains_key(h), |h: u64| self.cursors@[h]@)
    }

    pub closed spec fn full(self) -> bool {
        self.cursors.full()
    }

    /// The longest topic, in bytes, an event or a cursor may name.
    pub closed spec fn max_topic(self) -> u64 {
        self.max_topic
    }

    pub closed spec fn issued(self) -> Set<u64> {
        self.cursors.issued()
    }

    pub closed spec fn wf(self) -> bool {
        &&& self.cursors.wf()
        &&& forall|i: int| 0 <= i < self.events@.len() ==> event_valid(#[trigger] self.events@[i]@)
            && self.events@[i].topic@.len() <= self.max_topic
        &&& forall|h: u64| #[trigger] self.cursors@.contains_key(h) ==> {
            &&& self.cursors@[h].pos <= self.cursors@[h].entries@.len()
            &&& forall|k: int| 0 <= k < self.cursors@[h].entries@.len() ==> #[trigger] self.cursors@[h].entries@[k] < self.events@.len()
        }
    }

    /// An open cursor's handle was handed out by this store.
    pub proof fn lemma_cursor_issued(self, h: u64)
        requires
            self.wf(),
            self.cursors().contains_key(h),
        ensures
            self.issued().contains(h),
    {
        self.cursors.lemma_live_issued(h);
    }

    /// An empty store whose topics are at most `max_topic` bytes long.
    pub fn new(max_topic: u64) -> (r: Self)
        ensures
            r.wf(),
            r.events() == Seq::<EventView>::empty(),
            r.cursors() == Map::<u64, CursorState>::empty(),
            r.max_topic() == max_topic,
    {
        let r = Timeline { events: Vec::new(), cursors: Arena::new(), max_topic };
        assert(r.events() =~= Seq::<EventView>::empty());
        assert(r.cursors() =~= Map::<u64, CursorState>::empty());
        r
    }

    /// Appends an event to its topic's timeline and returns its position in
    /// append order.
    pub fn append(&mut self, e: Event) -> (r: Result<u64, SystemError>)
        requires
            old(self).wf(),
        ensures
            final(self).wf(),
            r is Err <==> !event_valid(e@) || e@.topic.len() > old(self).max_topic(),
            r is Err ==> r == Err::<u64, SystemError>(SystemError::Invalid) && final(self).events() == old(self).events(),
            r matches Ok(i) ==> i == old(self).events().len() && final(self).events() == old(self).events().push(e@),
            final(self).cursors() == old(self).cursors(),
            final(self).issued() == old(self).issued(),
            final(self).max_topic() == old(self).max_topic(),
    {
        if e.encoding > FILAMENT_FMT_TEXT || e.topic.len() as u64 > self.max_topic || e.topic.len() > 0xffff_ffff - 128
            || e.payload.len() > 0xffff_ffff - 128 - e.topic.len() {
            return Err(SystemError::Invalid);
        }
        let i = self.events.len() as u64;
        let ghost old_self = *self;
        self.events.push(e);
        proof {
            assert(self.events() =~= old_self.events().push(e@));
            assert(self.cursors() =~= old_self.cursors());
        }
        Ok(i)
    }

    fn matches(&self, j: usize, topic: &Vec<u8>, start: u64, end: u64) -> (r: bool)
        requires
            j < self.events@.len(),
        ensures
            r == event_matches(self.events@[j as int]@, topic@, start, end),
    {
        let e = &self.events[j];
        assert(e@ == self.events@[j as int]@);
        if !(start == 0 || e.timestamp >= start) || !(end == 0 || e.timestamp <= end) {
            return false;
        }
        if e.topic.len() != topic.len() {
            assert(e.topic@.len() != topic@.len());
            return false;
        }
        let mut k: usize = 0;
        while k < topic.len()
            invariant
                k <= topic@.len(),
                j < self.events@.len(),
                e@ == self.events@[j as int]@,
                start == 0 || e.timestamp >= start,
                end == 0 || e.timestamp <= end,
                e.topic@.len() == topic@.len(),
                e.topic@.subrange(0, k as int) == topic@.subrange(0, k as int),
            decreases topic@.len() - k,
        {
            if e.topic[k] != topic[k] {
                assert(e.topic@[k as int] != topic@[k as int]);
                assert(e.topic@ != topic@);
                return false;
            }
            k = k + 1;
            assert(e.topic@.subrange(0, k as int) =~= topic@.subrange(0, k as int));
        }
        assert(e.topic@ =~= e.topic@.subrange(0, k as int));
        assert(topic@ =~= topic@.subrange(0, k as int));
        assert(e.topic@ == topic@);
        assert(event_matches(e@, topic@, start, end));
        true
    }

    fn precedes_exec(&self, desc: bool, a: usize, b: usize) -> (r: bool)
        requires
            a < self.events@.len(),
            b < self.events@.len(),
        ensures
            r == precedes(self.events(), desc, a as int, b as int),
    {
        let ta = self.events[a].timestamp;
        let tb = self.events[b].timestamp;
        if desc {
            ta > tb || (ta == tb && a < b)
        } else {
            ta < tb || (ta == tb && a < b)
        }
    }

    /// The entries a cursor with these arguments yields.
    fn select(&self, topic: &Vec<u8>, start: u64, end: u64, limit: u64, desc: bool) -> (r: Vec<usize>)
        requires
            self.wf(),
        ensures
            selection(self.events(), topic@, start, end, limit, desc, r@),
    {
        let ghost evs = self.events();
        let n = self.events.len();
        let mut sel: Vec<usize> = Vec::new();
        let mut j: usize = 0;
        while j < n
            invariant
                n == self.events@.len(),
                evs == self.events(),
                evs.len() == n,
                j <= n,
                sorted_by(evs, desc, sel@),
                forall|i: int| 0 <= i < sel@.len() ==> #[trigger] sel@[i] < j && event_matches(evs[sel@[i] as int], topic@, start, end),
                forall|k: int| 0 <= k < j && event_matches(evs[k], topic@, start, end) ==> sel@.contains(k as usize),
            decreases n - j,
        {
            if self.matches(j, topic, start, end) {
                let mut p: usize = 0;
                while p < sel.len() && self.precedes_exec(desc, sel[p], j)
                    invariant
                        p <= sel@.len(),
                        forall|i: int| 0 <= i < sel@.len() ==> #[trigger] sel@[i] < j,
                        j < n,
                        n == self.events@.len(),
                        evs == self.events(),
                        forall|i: int| 0 <= i < p ==> precedes(evs, desc, #[trigger] sel@[i] as int, j as int),
                    decreases sel@.len() - p,
                {
                    p = p + 1;
                }
                let ghost old_sel = sel@;
                sel.insert(p, j);
                proof {
                    assert forall|a: int, b: int| 0 <= a < b < sel@.len() implies precedes(evs, desc, #[trigger] sel@[a] as int, #[trigger] sel@[b] as int) by {
                        if b < p {
                            assert(sel@[a] == old_sel[a] && sel@[b] == old_sel[b]);
                        } else if b == p {
                            assert(sel@[a] == old_sel[a]);
                        } else if a == p {
                            assert(sel@[b] == old_sel[b - 1]);
                            assert(!precedes(evs, desc, old_sel[p as int] as int, j as int));
                            lemma_precedes_order(evs, desc, old_sel[p as int] as int, j as int, 0);
                            if b - 1 > p {
                                lemma_precedes_order(evs, desc, j as int, old_sel[p as int] as int, old_sel[b - 1] as int);
                            }
                        } else if a < p {
                            assert(sel@[a] == old_sel[a] && sel@[b] == old_sel[b - 1]);
                        } else {
                            assert(sel@[a] == old_sel[a - 1] && sel@[b] == old_sel[b - 1]);
                        }
                    }
                    assert forall|k: int| 0 <= k < j + 1 && event_matches(evs[k], topic@, start, end) implies sel@.contains(k as usize) by {
                        if k == j {
                            assert(sel@[p as int] == j);
                        } else {
                            let q = choose|q: int| 0 <= q < old_sel.len() && old_sel[q] == k as usize;
                            if q < p {
                                assert(sel@[q] == k as usize);
                            } else {
                                assert(sel@[q + 1] == k as usize);
                            }
                        }
                    }
                    assert forall|i: int| 0 <= i < sel@.len() implies #[trigger] sel@[i] < j + 1 && event_matches(evs[sel@[i] as int], topic@, start, end) by {
                        if i < p {
                            assert(sel@[i] == old_sel[i]);
                        } else if i > p {
                            assert(sel@[i] == old_sel[i - 1]);
                        }
                    }
                }
            }
            j = j + 1;
        }
        let ghost full = sel@;
        if limit != 0 && (sel.len() as u64) > limit {
            sel.truncate(limit as usize);
        }
        proof {
            assert forall|k: int|
                0 <= k < evs.len() && event_matches(evs[k], topic@, start, end) && !sel@.contains(k as usize) implies {
                    &&& limit != 0 && sel@.len() == limit
                    &&& forall|i: int| 0 <= i < sel@.len() ==> precedes(evs, desc, #[trigger] sel@[i] as int, k)
                } by {
                let q = choose|q: int| 0 <= q < full.len() && full[q] == k as usize;
                if q < sel@.len() {
                    assert(sel@[q] == k as usize);
                }
                assert forall|i: int| 0 <= i < sel@.len() implies precedes(evs, desc, #[trigger] sel@[i] as int, k) by {
                    assert(sel@[i] == full[i]);
                }
            }
        }
        sel
    }

    /// Opens a cursor for `owner` over one topic's events between `start` and
    /// `end` (0 leaves a bound open), at most `limit` of them (0: all), in
    /// ascending or descending timestamp order.
    pub fn open(&mut self, owner: u64, topic: &Vec<u8>, start: u64, end: u64, limit: u64, desc: bool) -> (r: Result<u64, SystemError>)
        requires
            old(self).wf(),
        ensures
            final(self).wf(),
            final(self).events() == old(self).events(),
            final(self).max_topic() == old(self).max_topic(),
            r == Err::<u64, SystemError>(SystemError::Invalid) <==> open_invalid(topic@, start, end, old(self).max_topic()),
            r == Err::<u64, SystemError>(SystemError::Oom) <==> !open_invalid(topic@, start, end, old(self).max_topic()) && old(self).full(),
            r is Ok || r == Err::<u64, SystemError>(SystemError::Invalid) || r == Err::<u64, SystemError>(SystemError::Oom),
            r matches Ok(h) ==> {
                &&& !old(self).issued().contains(h)
                &&& final(self).issued() == old(self).issued().insert(h)
                &&& final(self).cursors().dom() == old(self).cursors().dom().insert(h)
                &&& forall|h2: u64| #[trigger] old(self).cursors().contains_key(h2) ==> final(self).cursors()[h2] == old(self).cursors()[h2]
                &&& final(self).cursors()[h].owner == owner
                &&& final(self).cursors()[h].pos == 0
                &&& selection(old(self).events(), topic@, start, end, limit, desc, final(self).cursors()[h].entries)
            },
            r is Err ==> final(self).cursors() == old(self).cursors() && final(self).issued() == old(self).issued(),
    {
        if topic.len() as u64 > self.max_topic || (start != 0 && end != 0 && start > end) {
            return Err(SystemError::Invalid);
        }
        let entries = self.select(topic, start, end, limit, desc);
        let c = Cursor { owner, entries, pos: 0 };
        let ghost cv = c@;
        let ghost old_self = *self;
        match self.cursors.insert(c) {
            Some(h) => {
                proof {
                    assert forall|h2: u64| #[trigger] old_self.cursors().contains_key(h2) implies h2 != h by {
                        old_self.cursors.lemma_live_issued(h2);
                    }
                    assert(self.cursors() =~= old_self.cursors().insert(h, cv));
                    assert(forall|k: int| 0 <= k < cv.entries.len() ==> #[trigger] cv.entries[k] < self.events@.len());
                }
                Ok(h)
            },
            None => {
                proof {
                    assert(self.cursors() =~= old_self.cursors());
                }
                Err(SystemError::Oom)
            },
        }
    }

    /// Copies as many whole framed events as fit in `cap` bytes and advances
    /// the cursor past them.
    pub fn next(&mut self, h: u64, cap: u64) -> (r: Result<Vec<u8>, SystemError>)
        requires
            old(self).wf(),
        ensures
            final(self).wf(),
            final(self).events() == old(self).events(),
            match next_outcome(old(self).events(), old(self).cursors(), h, cap) {
                Ok(b) => r matches Ok(v) && v@ == b,
                Err(e) => r == Err::<Vec<u8>, SystemError>(e),
            },
            final(self).cursors() == next_done(old(self).events(), old(self).cursors(), h, cap),
            final(self).issued() == old(self).issued(),
            final(self).max_topic() == old(self).max_topic(),
    {
        let ghost evs = self.events();
        let (pos, len) = match self.cursors.get(h) {
            None => {
                return Err(SystemError::NotFound);
            },
            Some(c) => (c.pos, c.entries.len()),
        };
        if pos >= len {
            return Err(SystemError::NotFound);
        }
        let ghost old_self = *self;
        let c = self.cursors.replace(h, Cursor::placeholder());
        let ghost s = c.entries@;
        let mut out: Vec<u8> = Vec::new();
        let mut rem: u64 = cap;
        let mut i: usize = pos;
        proof {
            lemma_fit_count_bound(evs, s, pos as int, cap as int);
        }
        let mut full = false;
        while i < len && !full
            invariant
                full ==> i < len && event_len(evs[s[i as int] as int]) > rem,
                s == c.entries@,
                len == s.len(),
                pos <= i <= len,
                evs == old_self.events(),
                evs.len() == self.events@.len(),
                forall|k: int| 0 <= k < s.len() ==> #[trigger] s[k] < evs.len(),
                forall|k: int| 0 <= k < evs.len() ==> event_valid(#[trigger] evs[k]),
                forall|k: int| 0 <= k < self.events@.len() ==> #[trigger] evs[k] == self.events@[k]@,
                out@ == batch(evs, s, pos as int, (i - pos) as nat),
                fit_count(evs, s, pos as int, cap as int) == (i - pos) + fit_count(evs, s, i as int, rem as int),
            decreases len - i + (if full { 0int } else { 1int }),
        {
            let e = &self.events[c.entries[i]];
            let n = 128 + e.topic.len() as u64 + e.payload.len() as u64;
            if n > rem {
                proof {
                    assert(evs[s[i as int] as int] == e@);
                }
                full = true;
                continue;
            }
            proof {
                assert(evs[s[i as int] as int] == e@);
                assert(event_len(e@) == n);
                assert(fit_count(evs, s, i as int, rem as int) == 1 + fit_count(evs, s, i + 1, rem - n));
            }
            e.encode_into(&mut out);
            rem = rem - n;
            i = i + 1;
            proof {
                assert(batch(evs, s, pos as int, (i - pos) as nat) == batch(evs, s, pos as int, (i - 1 - pos) as nat)
                    + event_bytes(evs[s[i - 1] as int]));
            }
        }
        proof {
            assert(fit_count(evs, s, i as int, rem as int) == 0);
        }
        let count = i - pos;
        let new_c = Cursor { owner: c.owner, entries: c.entries, pos: i };
        let ghost cv = new_c@;
        if count == 0 {
            self.cursors.replace(h, Cursor { pos, ..new_c });
            proof {
                assert(self.cursors() =~= old_self.cursors());
            }
            return Err(SystemError::Invalid);
        }
        self.cursors.replace(h, new_c);
        proof {
            assert(self.cursors() =~= old_self.cursors().insert(h, cv));
        }
        Ok(out)
    }

    /// Releases a cursor; a closed or unknown one is `NotFound`.
    pub fn close(&mut self, h: u64) -> (r: Result<(), SystemError>)
        requires
            old(self).wf(),
        ensures
            final(self).wf(),
            final(self).events() == old(self).events(),
            r is Ok <==> old(self).cursors().contains_key(h),
            r is Err ==> r == Err::<(), SystemError>(SystemError::NotFound),
            final(self).cursors() == old(self).cursors().remove(h),
            final(self).issued() == old(self).issued(),
            final(self).max_topic() == old(self).max_topic(),
    {
        let ghost old_self = *self;
        let r = self.cursors.remove(h);
        proof {
            assert(self.cursors() =~= old_self.cursors().remove(h));
        }
        match r {
            Some(_) => Ok(()),
            None => Err(SystemError::NotFound),
        }
    }

    /// Closes every cursor that `owner` opened.
    pub fn release_owner(&mut self, owner: u64)
        requires
            old(self).wf(),
        ensures
            final(self).wf(),
            final(self).events() == old(self).events(),
            final(self).cursors() == cursors_without_owner(old(self).cursors(), owner),
            final(self).issued() == old(self).issued(),
            final(self).max_topic() == old(self).max_topic(),
    {
        let hs = self.cursors.handles();
        let ghost m = self.cursors();
        let mut i: usize = 0;
        proof {
            assert(hs@.subrange(0, hs@.len() as int) =~= hs@);
        }
        while i < hs.len()
            invariant
                self.wf(),
                self.events() == old(self).events(),
                i <= hs@.len(),
                forall|h: u64| hs@.contains(h) <==> m.contains_key(h),
                forall|h: u64| #[trigger] self.cursors().contains_key(h) ==> m.contains_key(h) && self.cursors()[h] == m[h],
                forall|h: u64| #[trigger] m.contains_key(h) && !hs@.subrange(i as int, hs@.len() as int).contains(h)
                    ==> (self.cursors().contains_key(h) <==> m[h].owner != owner),
                forall|h: u64| #[trigger] m.contains_key(h) && m[h].owner != owner ==> self.cursors().contains_key(h),
                self.issued() == old(self).issued(),
                self.max_topic() == old(self).max_topic(),
            decreases hs@.len() - i,
        {
            let h = hs[i];
            let ghost old_self = *self;
            let owned = match self.cursors.get(h) {
                Some(c) => c.owner == owner,
                None => false,
            };
            if owned {
                self.cursors.remove(h);
                proof {
                    assert(self.cursors() =~= old_self.cursors().remove(h));
                }
            }
            proof {
                assert forall|h2: u64| #[trigger] m.contains_key(h2) && !hs@.subrange(i as int + 1, hs@.len() as int).contains(h2)
                    implies (self.cursors().contains_key(h2) <==> m[h2].owner != owner) by {
                    if h2 != h && hs@.subrange(i as int, hs@.len() as int).contains(h2) {
                        let k = choose|k: int| 0 <= k < hs@.len() - i && hs@.subrange(i as int, hs@.len() as int)[k] == h2;
                        assert(k != 0);
                        assert(hs@.subrange(i as int + 1, hs@.len() as int)[k - 1] == h2);
                    }
                    if h2 == h {
                        assert(hs@.contains(h));
                    }
                }
            }
            i = i + 1;
        }
        proof {
            assert(self.cursors() =~= Map::new(
                |h: u64| m.contains_key(h) && m[h].owner != owner,
                |h: u64| m[h],
            ));
        }
    }
}

/// Cursor order: the entries of a cursor come in non-decreasing timestamp
/// order when opened ascending, and non-increasing when opened descending.
pub proof fn lemma_cursor_order(
    evs: Seq<EventView>,
    topic: Seq<u8>,
    start: u64,
    end: u64,
    limit: u64,
    desc: bool,
    s: Seq<usize>,
    i: int,
    j: int,
)
    requires
        selection(evs, topic, start, end, limit, desc, s),
        0 <= i < j < s.len(),
    ensures
        desc ==> evs[s[i] as int].timestamp >= evs[s[j] as int].timestamp,
        !desc ==> evs[s[i] as int].timestamp <= evs[s[j] as int].timestamp,
{
    assert(precedes(evs, desc, s[i] as int, s[j] as int));
}

/// A batch of framed events starts with the first of them.
pub proof fn lemma_batch_front(evs: Seq<EventView>, s: Seq<usize>, i: int, n: nat)
    requires
        n >= 1,
    ensures
        batch(evs, s, i, n) == event_bytes(evs[s[i] as int]) + batch(evs, s, i + 1, (n - 1) as nat),
    decreases n,
{
    if n == 1 {
        assert(batch(evs, s, i, 0) == Seq::<u8>::empty());
        assert(batch(evs, s, i + 1, 0) == Seq::<u8>::empty());
        assert(batch(evs, s, i, 1) =~= event_bytes(evs[s[i] as int]) + batch(evs, s, i + 1, 0));
    } else {
        lemma_batch_front(evs, s, i, (n - 1) as nat);
        assert(batch(evs, s, i, n) =~= event_bytes(evs[s[i] as int]) + batch(evs, s, i + 1, (n - 1) as nat));
    }
}

/// Read-back round trip: the bytes a cursor's `next` hands out begin with the
/// framed event at the cursor's position, and reading them back gives that
/// event exactly, header fields and payload bytes alike.
pub proof fn lemma_next_round_trip(evs: Seq<EventView>, cs: Map<u64, CursorState>, h: u64, cap: u64)
    requires
        next_outcome(evs, cs, h, cap) is Ok,
        forall|k: int| 0 <= k < evs.len() ==> event_valid(#[trigger] evs[k]),
        forall|k: int| 0 <= k < cs[h].entries.len() ==> #[trigger] cs[h].entries[k] < evs.len(),
    ensures
        crate::event::parse_event(next_outcome(evs, cs, h, cap)->Ok_0) == Some(evs[cs[h].entries[cs[h].pos as int] as int]),
{
    let s = cs[h].entries;
    let i = cs[h].pos as int;
    let n = fit_count(evs, s, i, cap as int);
    lemma_batch_front(evs, s, i, n);
    crate::event::lemma_event_round_trip(evs[s[i] as int], batch(evs, s, i + 1, (n - 1) as nat));
}

} // verus!
