//! Framed events: a fixed 128-byte little-endian header, then the topic bytes,
//! then the payload bytes.
use vstd::prelude::*;
use vstd::bytes::{
    spec_u32_from_le_bytes, spec_u32_to_le_bytes, spec_u64_from_le_bytes, spec_u64_to_le_bytes,
    u32_from_le_bytes, u32_to_le_bytes, u64_from_le_bytes, u64_to_le_bytes,
};
use crate::abi::FILAMENT_FMT_TEXT;
use crate::sys::{FilamentEventHeader, FilamentTraceContext};

verus! {

/// Bytes in a serialized event header.
pub const EVENT_HEADER_BYTES: u64 = 128;

/// The trace context carried by an event: 128-bit trace id, span id, flags.
#[derive(Clone, Copy, Debug, PartialEq, Eq, Structural)]
pub struct TraceContext {
    pub trace_id_hi: u64,
    pub trace_id_lo: u64,
    pub span_id: u64,
    pub flags: u8,
}

/// An immutable record appended to one topic's timeline.
pub struct Event {
    pub id: u64,
    pub timestamp: u64,
    pub schema_id: u64,
    pub auth_agent: u64,
    pub auth_user: u64,
    pub trace: TraceContext,
    pub flags: u32,
    pub encoding: u32,
    pub topic: Vec<u8>,
    pub payload: Vec<u8>,
}

/// An event as the contracts see it.
pub ghost struct EventView {
    pub id: u64,
    pub timestamp: u64,
    pub schema_id: u64,
    pub auth_agent: u64,
    pub auth_user: u64,
    pub trace: TraceContext,
    pub flags: u32,
    pub encoding: u32,
    pub topic: Seq<u8>,
    pub payload: Seq<u8>,
}

impl View for Event {
    type V = EventView;

    open spec fn view(&self) -> EventView {
        EventView {
            id: self.id,
            timestamp: self.timestamp,
            schema_id: self.schema_id,
            auth_agent: self.auth_agent,
            auth_user: self.auth_user,
            trace: self.trace,
            flags: self.flags,
            encoding: self.encoding,
            topic: self.topic@,
            payload: self.payload@,
        }
    }
}

/// An event can be framed: a known encoding, and a total length that fits the
/// header's 32-bit field.
pub open spec fn event_valid(e: EventView) -> bool {
    &&& e.encoding <= FILAMENT_FMT_TEXT
    &&& EVENT_HEADER_BYTES + e.topic.len() + e.payload.len() <= u32::MAX
}

/// The framed length of an event.
pub open spec fn event_len(e: EventView) -> int {
    EVENT_HEADER_BYTES + e.topic.len() + e.payload.len()
}

pub open spec fn zeros(n: nat) -> Seq<u8> {
    Seq::new(n, |i: int| 0u8)
}

/// The header of an event, field by field.
pub open spec fn header_bytes(e: EventView) -> Seq<u8> {
    spec_u32_to_le_bytes(event_len(e) as u32) + spec_u32_to_le_bytes(e.flags) + spec_u64_to_le_bytes(
        e.id,
    ) + spec_u64_to_le_bytes(e.timestamp) + spec_u64_to_le_bytes(e.schema_id)
        + spec_u64_to_le_bytes(e.auth_agent) + spec_u64_to_le_bytes(e.auth_user)
        + spec_u64_to_le_bytes(e.trace.trace_id_hi) + spec_u64_to_le_bytes(e.trace.trace_id_lo)
        + spec_u64_to_le_bytes(e.trace.span_id) + seq![e.trace.flags] + zeros(7)
        + spec_u32_to_le_bytes(e.topic.len() as u32) + spec_u32_to_le_bytes(e.payload.len() as u32)
        + spec_u32_to_le_bytes(e.encoding) + zeros(36)
}

/// The framed bytes of an event.
pub open spec fn event_bytes(e: EventView) -> Seq<u8> {
    header_bytes(e) + e.topic + e.payload
}

pub open spec fn u32_at(b: Seq<u8>, off: int) -> u32 {
    spec_u32_from_le_bytes(b.subrange(off, off + 4))
}

pub open spec fn u64_at(b: Seq<u8>, off: int) -> u64 {
    spec_u64_from_le_bytes(b.subrange(off, off + 8))
}

/// Reads the event framed at the start of `b`, if a whole one is there.
pub open spec fn parse_event(b: Seq<u8>) -> Option<EventView> {
    if b.len() < EVENT_HEADER_BYTES {
        None
    } else {
        let total = u32_at(b, 0) as int;
        let topic_len = u32_at(b, 80) as int;
        let data_len = u32_at(b, 84) as int;
        if total != EVENT_HEADER_BYTES + topic_len + data_len || b.len() < total {
            None
        } else {
            Some(
                EventView {
                    id: u64_at(b, 8),
                    timestamp: u64_at(b, 16),
                    schema_id: u64_at(b, 24),
                    auth_agent: u64_at(b, 32),
                    auth_user: u64_at(b, 40),
                    trace: TraceContext {
                        trace_id_hi: u64_at(b, 48),
                        trace_id_lo: u64_at(b, 56),
                        span_id: u64_at(b, 64),
                        flags: b[72],
                    },
                    flags: u32_at(b, 4),
                    encoding: u32_at(b, 88),
                    topic: b.subrange(128, 128 + topic_len),
                    payload: b.subrange(128 + topic_len, total),
                },
            )
        }
    }
}

proof fn lemma_header_fields(e: EventView)
    ensures
        header_bytes(e).len() == 128,
        header_bytes(e).subrange(0, 4) == spec_u32_to_le_bytes(event_len(e) as u32),
        header_bytes(e).subrange(4, 8) == spec_u32_to_le_bytes(e.flags),
        header_bytes(e).subrange(8, 16) == spec_u64_to_le_bytes(e.id),
        header_bytes(e).subrange(16, 24) == spec_u64_to_le_bytes(e.timestamp),
        header_bytes(e).subrange(24, 32) == spec_u64_to_le_bytes(e.schema_id),
        header_bytes(e).subrange(32, 40) == spec_u64_to_le_bytes(e.auth_agent),
        header_bytes(e).subrange(40, 48) == spec_u64_to_le_bytes(e.auth_user),
        header_bytes(e).subrange(48, 56) == spec_u64_to_le_bytes(e.trace.trace_id_hi),
        header_bytes(e).subrange(56, 64) == spec_u64_to_le_bytes(e.trace.trace_id_lo),
        header_bytes(e).subrange(64, 72) == spec_u64_to_le_bytes(e.trace.span_id),
        header_bytes(e)[72] == e.trace.flags,
        header_bytes(e).subrange(80, 84) == spec_u32_to_le_bytes(e.topic.len() as u32),
        header_bytes(e).subrange(84, 88) == spec_u32_to_le_bytes(e.payload.len() as u32),
        header_bytes(e).subrange(88, 92) == spec_u32_to_le_bytes(e.encoding),
{
    vstd::bytes::lemma_auto_spec_u32_to_from_le_bytes();
    vstd::bytes::lemma_auto_spec_u64_to_from_le_bytes();
    let h = header_bytes(e);
    assert(h.subrange(0, 4) =~= spec_u32_to_le_bytes(event_len(e) as u32));
    assert(h.subrange(4, 8) =~= spec_u32_to_le_bytes(e.flags));
    assert(h.subrange(8, 16) =~= spec_u64_to_le_bytes(e.id));
    assert(h.subrange(16, 24) =~= spec_u64_to_le_bytes(e.timestamp));
    assert(h.subrange(24, 32) =~= spec_u64_to_le_bytes(e.schema_id));
    assert(h.subrange(32, 40) =~= spec_u64_to_le_bytes(e.auth_agent));
    assert(h.subrange(40, 48) =~= spec_u64_to_le_bytes(e.auth_user));
    assert(h.subrange(48, 56) =~= spec_u64_to_le_bytes(e.trace.trace_id_hi));
    assert(h.subrange(56, 64) =~= spec_u64_to_le_bytes(e.trace.trace_id_lo));
    assert(h.subrange(64, 72) =~= spec_u64_to_le_bytes(e.trace.span_id));
    assert(h.subrange(80, 84) =~= spec_u32_to_le_bytes(e.topic.len() as u32));
    assert(h.subrange(84, 88) =~= spec_u32_to_le_bytes(e.payload.len() as u32));
    assert(h.subrange(88, 92) =~= spec_u32_to_le_bytes(e.encoding));
}

/// Framing round trip: the event read back from its framed bytes, followed by
/// anything at all, is the event that was framed, header fields and bytes alike.
pub proof fn lemma_event_round_trip(e: EventView, rest: Seq<u8>)
    requires
        event_valid(e),
    ensures
        parse_event(event_bytes(e) + rest) == Some(e),
        event_bytes(e).len() == event_len(e),
{
    vstd::bytes::lemma_auto_spec_u32_to_from_le_bytes();
    vstd::bytes::lemma_auto_spec_u64_to_from_le_bytes();
    lemma_header_fields(e);
    let h = header_bytes(e);
    let b = event_bytes(e) + rest;
    assert forall|lo: int, hi: int| 0 <= lo <= hi <= 128 implies #[trigger] b.subrange(lo, hi)
        == h.subrange(lo, hi) by {
        assert(b.subrange(lo, hi) =~= h.subrange(lo, hi));
    }
    assert(b[72] == h[72]);
    let t = e.topic.len() as int;
    assert(b.subrange(128, 128 + t) =~= e.topic);
    assert(b.subrange(128 + t, event_len(e)) =~= e.payload);
    assert(u32_at(b, 0) == event_len(e) as u32);
    assert(u32_at(b, 80) == e.topic.len() as u32);
    assert(u32_at(b, 84) == e.payload.len() as u32);
}

fn push_u32(out: &mut Vec<u8>, x: u32)
    ensures
        final(out)@ == old(out)@ + spec_u32_to_le_bytes(x),
{
    let mut b = u32_to_le_bytes(x);
    out.append(&mut b);
}

fn push_u64(out: &mut Vec<u8>, x: u64)
    ensures
        final(out)@ == old(out)@ + spec_u64_to_le_bytes(x),
{
    let mut b = u64_to_le_bytes(x);
    out.append(&mut b);
}

fn push_zeros(out: &mut Vec<u8>, n: usize)
    ensures
        final(out)@ == old(out)@ + zeros(n as nat),
{
    let ghost start = out@;
    let mut i: usize = 0;
    while i < n
        invariant
            i <= n,
            out@ == start + zeros(i as nat),
        decreases n - i,
    {
        out.push(0);
        i = i + 1;
        assert(out@ =~= start + zeros(i as nat));
    }
}

fn push_bytes(out: &mut Vec<u8>, b: &Vec<u8>)
    ensures
        final(out)@ == old(out)@ + b@,
{
    let ghost start = out@;
    let mut i: usize = 0;
    while i < b.len()
        invariant
            i <= b@.len(),
            out@ == start + b@.subrange(0, i as int),
        decreases b@.len() - i,
    {
        out.push(b[i]);
        i = i + 1;
        assert(out@ =~= start + b@.subrange(0, i as int));
    }
    assert(b@.subrange(0, b@.len() as int) =~= b@);
}

fn read_u32(b: &Vec<u8>, at: usize) -> (x: u32)
    requires
        at + 4 <= b@.len(),
    ensures
        x == u32_at(b@, at as int),
{
    let n = b.len();
    u32_from_le_bytes(vstd::slice::slice_subrange(b.as_slice(), at, at + 4))
}

fn read_u64(b: &Vec<u8>, at: usize) -> (x: u64)
    requires
        at + 8 <= b@.len(),
    ensures
        x == u64_at(b@, at as int),
{
    let n = b.len();
    u64_from_le_bytes(vstd::slice::slice_subrange(b.as_slice(), at, at + 8))
}

impl Event {
    /// Appends the framed bytes of this event to `out`.
    pub fn encode_into(&self, out: &mut Vec<u8>)
        requires
            event_valid(self@),
        ensures
            final(out)@ == old(out)@ + event_bytes(self@),
    {
        let ghost start = out@;
        let total = (128 + self.topic.len() + self.payload.len()) as u32;
        push_u32(out, total);
        push_u32(out, self.flags);
        push_u64(out, self.id);
        push_u64(out, self.timestamp);
        push_u64(out, self.schema_id);
        push_u64(out, self.auth_agent);
        push_u64(out, self.auth_user);
        push_u64(out, self.trace.trace_id_hi);
        push_u64(out, self.trace.trace_id_lo);
        push_u64(out, self.trace.span_id);
        out.push(self.trace.flags);
        push_zeros(out, 7);
        push_u32(out, self.topic.len() as u32);
        push_u32(out, self.payload.len() as u32);
        push_u32(out, self.encoding);
        push_zeros(out, 36);
        push_bytes(out, &self.topic);
        push_bytes(out, &self.payload);
        assert(out@ =~= start + event_bytes(self@));
    }

    /// The boundary header of this event.
    pub fn header(&self) -> (r: FilamentEventHeader)
        requires
            event_valid(self@),
        ensures
            r.total_len == event_len(self@),
            r.flags == self.flags,
            r.id == self.id,
            r.timestamp == self.timestamp,
            r.schema_id == self.schema_id,
            r.auth_agent == self.auth_agent,
            r.auth_user == self.auth_user,
            r.trace.trace_id_hi == self.trace.trace_id_hi,
            r.trace.trace_id_lo == self.trace.trace_id_lo,
            r.trace.span_id == self.trace.span_id,
            r.trace.flags == self.trace.flags,
            r.topic_len == self.topic@.len(),
            r.data_len == self.payload@.len(),
            r.encoding == self.encoding,
    {
        FilamentEventHeader {
            total_len: (128 + self.topic.len() + self.payload.len()) as u32,
            flags: self.flags,
            id: self.id,
            timestamp: self.timestamp,
            schema_id: self.schema_id,
            auth_agent: self.auth_agent,
            auth_user: self.auth_user,
            trace: FilamentTraceContext {
                trace_id_hi: self.trace.trace_id_hi,
                trace_id_lo: self.trace.trace_id_lo,
                span_id: self.trace.span_id,
                flags: self.trace.flags,
                _pad: [0u8; 7],
            },
            topic_len: self.topic.len() as u32,
            data_len: self.payload.len() as u32,
            encoding: self.encoding,
            _pad: [0u8; 36],
        }
    }

    /// The framed bytes of this event.
    pub fn encode(&self) -> (r: Vec<u8>)
        requires
            event_valid(self@),
        ensures
            r@ == event_bytes(self@),
    {
        let mut out = Vec::new();
        self.encode_into(&mut out);
        assert(out@ =~= event_bytes(self@));
        out
    }

    /// Reads the event framed at `off` in `b`, and where the next one starts.
    pub fn decode(b: &Vec<u8>, off: usize) -> (r: Option<(Event, usize)>)
        requires
            off <= b@.len(),
        ensures
            r is Some <==> parse_event(b@.subrange(off as int, b@.len() as int)) is Some,
            r matches Some(p) ==> {
                &&& Some(p.0@) == parse_event(b@.subrange(off as int, b@.len() as int))
                &&& p.1 == off + event_len(p.0@)
            },
    {
        let ghost s = b@.subrange(off as int, b@.len() as int);
        let bs = b.as_slice();
        if b.len() - off < 128 {
            return None;
        }
        proof {
            assert forall|k: int, n: int| 0 <= k && 0 <= n && k + n <= s.len() implies #[trigger] s.subrange(k, k + n)
                =~= b@.subrange(off + k, off + k + n) by {}
        }
        let total64 = read_u32(b, off + 0) as u64;
        let topic_len64 = read_u32(b, off + 80) as u64;
        let data_len64 = read_u32(b, off + 84) as u64;
        if total64 != 128 + topic_len64 + data_len64 || ((b.len() - off) as u64) < total64 {
            return None;
        }
        let total = total64 as usize;
        let topic_len = topic_len64 as usize;
        let topic = vstd::slice::slice_to_vec(vstd::slice::slice_subrange(bs, off + 128, off + 128 + topic_len));
        let payload = vstd::slice::slice_to_vec(
            vstd::slice::slice_subrange(bs, off + 128 + topic_len, off + total),
        );
        proof {
            assert(s.subrange(0, 4) == b@.subrange(off as int, off + 4));
            assert(s.subrange(80, 84) == b@.subrange(off + 80, off + 84));
            assert(s.subrange(84, 88) == b@.subrange(off + 84, off + 88));
            assert(s.subrange(4, 8) == b@.subrange(off + 4, off + 8));
            assert(s.subrange(88, 92) == b@.subrange(off + 88, off + 92));
            assert(s.subrange(8, 16) == b@.subrange(off + 8, off + 16));
            assert(s.subrange(16, 24) == b@.subrange(off + 16, off + 24));
            assert(s.subrange(24, 32) == b@.subrange(off + 24, off + 32));
            assert(s.subrange(32, 40) == b@.subrange(off + 32, off + 40));
            assert(s.subrange(40, 48) == b@.subrange(off + 40, off + 48));
            assert(s.subrange(48, 56) == b@.subrange(off + 48, off + 56));
            assert(s.subrange(56, 64) == b@.subrange(off + 56, off + 64));
            assert(s.subrange(64, 72) == b@.subrange(off + 64, off + 72));
        }
        let e = Event {
            id: read_u64(b, off + 8),
            timestamp: read_u64(b, off + 16),
            schema_id: read_u64(b, off + 24),
            auth_agent: read_u64(b, off + 32),
            auth_user: read_u64(b, off + 40),
            trace: TraceContext {
                trace_id_hi: read_u64(b, off + 48),
                trace_id_lo: read_u64(b, off + 56),
                span_id: read_u64(b, off + 64),
                flags: b[off + 72],
            },
            flags: read_u32(b, off + 4),
            encoding: read_u32(b, off + 88),
            topic,
            payload,
        };
        assert(topic@ =~= s.subrange(128, 128 + topic_len));
        assert(payload@ =~= s.subrange(128 + topic_len, total as int));
        Some((e, off + total))
    }
}

} // verus!
