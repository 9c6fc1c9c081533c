//! Reassembly of segmented messages, with expiry of unfinished ones.
use vstd::prelude::*;
use crate::clock::clock_millis;
use crate::codec::frame_result_view;
use crate::error::{Result, SomeIpError};
use crate::header::{ClientId, MethodId, ServiceId, SessionId, SomeIpHeader};
use crate::message::SomeIpMessage;
use crate::tp::segment::TpSegment;

verus! {

/// Default lifetime of an unfinished reassembly, in milliseconds.
pub const DEFAULT_REASSEMBLY_TIMEOUT_MS: u64 = 5000;

/// Identifies the message a segment belongs to.
#[derive(Debug, Clone, Copy, PartialEq, Eq, Hash, Structural)]
pub struct ReassemblyKey {
    pub service_id: ServiceId,
    pub method_id: MethodId,
    pub client_id: ClientId,
    pub session_id: SessionId,
}

impl ReassemblyKey {
    pub open spec fn spec_of(header: SomeIpHeader) -> ReassemblyKey {
        ReassemblyKey {
            service_id: header.service_id,
            method_id: header.method_id,
            client_id: header.client_id,
            session_id: header.session_id,
        }
    }

    /// The key of the message that `header` belongs to.
    pub fn from_header(header: &SomeIpHeader) -> (r: ReassemblyKey)
        ensures
            r == Self::spec_of(*header),
    {
        ReassemblyKey {
            service_id: header.service_id,
            method_id: header.method_id,
            client_id: header.client_id,
            session_id: header.session_id,
        }
    }
}

/// What a reassembly in progress holds.
pub struct ContextView {
    /// The header of the first segment seen.
    pub header: SomeIpHeader,
    /// Segment payloads by offset (16-byte units), in increasing offset order.
    pub segments: Seq<(u32, Seq<u8>)>,
    /// Total payload length, known once the last segment arrived.
    pub total: Option<u64>,
    /// When the first segment arrived (milliseconds).
    pub created_at: u64,
}

/// Offsets increase strictly along `s`.
pub open spec fn sorted_offsets(s: Seq<(u32, Seq<u8>)>) -> bool {
    forall|i: int, j: int| 0 <= i < j < s.len() ==> s[i].0 < s[j].0
}

/// `i` is where offset `k` belongs in `s`.
pub open spec fn insertion_point(s: Seq<(u32, Seq<u8>)>, k: u32, i: int) -> bool {
    &&& 0 <= i <= s.len()
    &&& forall|j: int| 0 <= j < i ==> s[j].0 < k
    &&& forall|j: int| i <= j < s.len() ==> s[j].0 >= k
}

/// `s` with the payload at offset `k` set to `p` (replacing any earlier one).
pub open spec fn insert_segment(s: Seq<(u32, Seq<u8>)>, k: u32, p: Seq<u8>) -> Seq<(u32, Seq<u8>)> {
    let i = choose|i: int| insertion_point(s, k, i);
    if i < s.len() && s[i].0 == k {
        s.update(i, (k, p))
    } else {
        s.insert(i, (k, p))
    }
}

/// The number of payload bytes in the first `i` segments.
pub open spec fn bytes_before(s: Seq<(u32, Seq<u8>)>, i: int) -> int
    decreases i,
{
    if i <= 0 {
        0
    } else {
        bytes_before(s, i - 1) + s[i - 1].1.len()
    }
}

/// The payloads of the first `i` segments, concatenated.
pub open spec fn joined_before(s: Seq<(u32, Seq<u8>)>, i: int) -> Seq<u8>
    decreases i,
{
    if i <= 0 {
        Seq::empty()
    } else {
        joined_before(s, i - 1) + s[i - 1].1
    }
}

/// Every segment starts where the ones before it end (in 16-byte units).
pub open spec fn gap_free(s: Seq<(u32, Seq<u8>)>) -> bool {
    forall|i: int| 0 <= i < s.len() ==> #[trigger] s[i].0 == (bytes_before(s, i) / 16) as u32
}

/// A reassembly is complete when the total length is known, the segments are
/// gap-free from offset 0, and they hold at least the total length (and the
/// result fits in a message).
pub open spec fn is_complete(s: Seq<(u32, Seq<u8>)>, total: Option<u64>) -> bool {
    &&& total is Some
    &&& gap_free(s)
    &&& bytes_before(s, s.len() as int) >= total->Some_0
    &&& bytes_before(s, s.len() as int) + 8 <= u32::MAX
}

/// The message a complete reassembly yields: the first header with its base
/// message type and the length of the concatenated payloads.
pub open spec fn assembled(c: ContextView) -> (SomeIpHeader, Seq<u8>) {
    let payload = joined_before(c.segments, c.segments.len() as int);
    (
        SomeIpHeader {
            message_type: c.header.message_type.spec_to_base(),
            length: (8 + payload.len()) as u32,
            ..c.header
        },
        payload,
    )
}

/// A context after segment `seg` was added to it.
pub open spec fn add_segment(c: ContextView, seg: (SomeIpHeader, crate::tp::header::TpHeader, Seq<u8>)) -> ContextView {
    ContextView {
        segments: insert_segment(c.segments, seg.1.offset, seg.2),
        total: if !seg.1.more {
            Some((seg.1.offset as int * 16 + seg.2.len()) as u64)
        } else {
            c.total
        },
        ..c
    }
}

/// The index of the reassembly of `k` in `s`, or `s.len()` when there is none.
pub open spec fn find_key(s: Seq<(ReassemblyKey, ContextView)>, k: ReassemblyKey) -> int
    decreases s.len(),
{
    if s.len() == 0 {
        0
    } else if s.last().0 == k && find_key(s.drop_last(), k) == s.len() - 1 {
        s.len() - 1
    } else if find_key(s.drop_last(), k) < s.len() - 1 {
        find_key(s.drop_last(), k)
    } else {
        s.len() as int
    }
}

/// Whether a reassembly created at `created_at` has outlived `timeout` at `now`.
pub open spec fn timed_out(created_at: u64, now: u64, timeout: u64) -> bool {
    now > created_at && now - created_at > timeout
}

/// The reassemblies of `s` that have not outlived `timeout` at `now`, in order.
pub open spec fn live(s: Seq<(ReassemblyKey, ContextView)>, now: u64, timeout: u64) -> Seq<(ReassemblyKey, ContextView)>
    decreases s.len(),
{
    if s.len() == 0 {
        s
    } else if timed_out(s.last().1.created_at, now, timeout) {
        live(s.drop_last(), now, timeout)
    } else {
        live(s.drop_last(), now, timeout).push(s.last())
    }
}

/// Every reassembly kept by `live` is one of `s`, and distinct keys stay distinct.
pub proof fn lemma_live_keys(s: Seq<(ReassemblyKey, ContextView)>, now: u64, timeout: u64)
    ensures
        forall|j: int| 0 <= j < live(s, now, timeout).len() ==> s.contains(#[trigger] live(s, now, timeout)[j]),
        live(s, now, timeout).len() <= s.len(),
        (forall|a: int, b: int| 0 <= a < b < s.len() ==> s[a].0 != s[b].0) ==> (forall|a: int, b: int|
            0 <= a < b < live(s, now, timeout).len() ==> live(s, now, timeout)[a].0 != live(s, now, timeout)[b].0),
    decreases s.len(),
{
    if s.len() > 0 {
        let t = s.drop_last();
        lemma_live_keys(t, now, timeout);
        let l = live(s, now, timeout);
        let lt = live(t, now, timeout);
        assert forall|j: int| 0 <= j < l.len() implies s.contains(#[trigger] l[j]) by {
            if j < lt.len() {
                assert(l[j] == lt[j]);
                let k = choose|k: int| 0 <= k < t.len() && t[k] == lt[j];
                assert(s[k] == lt[j]);
            } else {
                assert(l[j] == s[s.len() - 1]);
            }
        }
        if forall|a: int, b: int| 0 <= a < b < s.len() ==> s[a].0 != s[b].0 {
            assert(forall|a: int, b: int| 0 <= a < b < t.len() ==> t[a].0 != t[b].0);
            assert forall|a: int, b: int| 0 <= a < b < l.len() implies l[a].0 != l[b].0 by {
                if b < lt.len() {
                    assert(l[a] == lt[a] && l[b] == lt[b]);
                } else {
                    assert(l[b] == s.last());
                    assert(l[a] == lt[a]);
                    assert(t.contains(lt[a]));
                    let k = choose|k: int| 0 <= k < t.len() && t[k] == lt[a];
                    assert(s[k] == t[k]);
                }
            }
        }
    }
}

/// No reassembly kept by `live` has outlived the timeout.
pub proof fn lemma_live_fresh(s: Seq<(ReassemblyKey, ContextView)>, now: u64, timeout: u64)
    ensures
        forall|j: int|
            0 <= j < live(s, now, timeout).len() ==> !timed_out(
                #[trigger] live(s, now, timeout)[j].1.created_at,
                now,
                timeout,
            ),
    decreases s.len(),
{
    if s.len() > 0 {
        let t = s.drop_last();
        lemma_live_fresh(t, now, timeout);
        let l = live(s, now, timeout);
        let lt = live(t, now, timeout);
        assert forall|j: int| 0 <= j < l.len() implies !timed_out(#[trigger] l[j].1.created_at, now, timeout) by {
            if j < lt.len() {
                assert(l[j] == lt[j]);
            }
        }
    }
}

/// The outcome of feeding segment `seg` at time `now` to the reassemblies `s`:
/// the segment joins the reassembly of its key, which is created with the
/// segment's header if there is none. A complete reassembly is removed and its
/// message returned; an incomplete one stays in place (a new one goes last)
/// and nothing is returned.
pub open spec fn fed(
    s: Seq<(ReassemblyKey, ContextView)>,
    s2: Seq<(ReassemblyKey, ContextView)>,
    seg: (SomeIpHeader, crate::tp::header::TpHeader, Seq<u8>),
    now: u64,
    r: Result<Option<(SomeIpHeader, Seq<u8>)>>,
) -> bool {
    let key = ReassemblyKey::spec_of(seg.0);
    let i = find_key(s, key);
    let c = if i < s.len() {
        s[i].1
    } else {
        ContextView { header: seg.0, segments: Seq::empty(), total: None, created_at: now }
    };
    let c2 = add_segment(c, seg);
    if is_complete(c2.segments, c2.total) {
        &&& r == Ok::<Option<(SomeIpHeader, Seq<u8>)>, SomeIpError>(Some(assembled(c2)))
        &&& s2 == if i < s.len() { s.remove(i) } else { s }
    } else {
        &&& r == Ok::<Option<(SomeIpHeader, Seq<u8>)>, SomeIpError>(None)
        &&& s2 == if i < s.len() { s.update(i, (key, c2)) } else { s.push((key, c2)) }
    }
}

/// Expiry law: once `now` is past `t0 + timeout`, no reassembly created at
/// `t0` survives a cleanup at `now`.
pub proof fn lemma_cleanup_removes_expired(s: Seq<(ReassemblyKey, ContextView)>, now: u64, timeout: u64, t0: u64)
    requires
        now > t0 + timeout,
    ensures
        forall|j: int| 0 <= j < live(s, now, timeout).len() ==> #[trigger] live(s, now, timeout)[j].1.created_at != t0,
{
    lemma_live_fresh(s, now, timeout);
    assert forall|j: int| 0 <= j < live(s, now, timeout).len() implies #[trigger] live(s, now, timeout)[j].1.created_at != t0 by {
        assert(!timed_out(live(s, now, timeout)[j].1.created_at, now, timeout));
    }
}

/// Default most reassemblies kept at once.
pub const DEFAULT_MAX_CONTEXTS: usize = 64;

/// Default most payload bytes buffered at once (16 MiB).
pub const DEFAULT_MAX_BUFFERED: u64 = 0x100_0000;

/// `x`, or the largest `u64` when it does not fit.
pub open spec fn sat64(x: int) -> u64 {
    if x <= u64::MAX {
        x as u64
    } else {
        u64::MAX
    }
}

/// The payload bytes held in segments `s` (saturating).
pub open spec fn segment_bytes_total(s: Seq<(u32, Seq<u8>)>) -> u64
    decreases s.len(),
{
    if s.len() == 0 {
        0
    } else {
        sat64(segment_bytes_total(s.drop_last()) + sat64(s.last().1.len() as int))
    }
}

/// The payload bytes held by the reassemblies `s` (saturating).
pub open spec fn buffered(s: Seq<(ReassemblyKey, ContextView)>) -> u64
    decreases s.len(),
{
    if s.len() == 0 {
        0
    } else {
        sat64(buffered(s.drop_last()) + segment_bytes_total(s.last().1.segments))
    }
}

/// The reassemblies `s` after dropping the oldest while more than
/// `max_contexts` are held or more than `max_buffered` bytes.
pub open spec fn trim(s: Seq<(ReassemblyKey, ContextView)>, max_contexts: int, max_buffered: u64) -> Seq<(ReassemblyKey, ContextView)>
    decreases s.len(),
{
    if s.len() > 0 && (s.len() > max_contexts || buffered(s) > max_buffered) {
        trim(s.drop_first(), max_contexts, max_buffered)
    } else {
        s
    }
}

struct ReassemblyContext {
    key: ReassemblyKey,
    base_header: SomeIpHeader,
    segments: Vec<(u32, Vec<u8>)>,
    total_length: Option<u64>,
    created_at: u64,
}

impl ReassemblyContext {
    spec fn view_segments(&self) -> Seq<(u32, Seq<u8>)> {
        self.segments@.map_values(|e: (u32, Vec<u8>)| (e.0, e.1@))
    }

    spec fn view(&self) -> (ReassemblyKey, ContextView) {
        (
            self.key,
            ContextView {
                header: self.base_header,
                segments: self.view_segments(),
                total: self.total_length,
                created_at: self.created_at,
            },
        )
    }

    fn new(header: SomeIpHeader, now: u64) -> (r: ReassemblyContext)
        ensures
            r.view() == (ReassemblyKey::spec_of(header), ContextView {
                header,
                segments: Seq::empty(),
                total: None,
                created_at: now,
            }),
    {
        let r = ReassemblyContext {
            key: ReassemblyKey::from_header(&header),
            base_header: header,
            segments: Vec::new(),
            total_length: None,
            created_at: now,
        };
        assert(r.view_segments() =~= Seq::empty());
        r
    }

    fn add_segment(&mut self, segment: &TpSegment)
        requires
            sorted_offsets(old(self).view_segments()),
            segment.payload@.len() <= u32::MAX,
        ensures
            final(self).view() == (old(self).view().0, add_segment(old(self).view().1, segment@)),
            sorted_offsets(final(self).view_segments()),
    {
        let offset = segment.tp_header.offset;
        let ghost s = self.view_segments();
        let mut i: usize = 0;
        while i < self.segments.len() && self.segments[i].0 < offset
            invariant
                0 <= i <= self.segments@.len(),
                s == self.view_segments(),
                sorted_offsets(s),
                forall|j: int| 0 <= j < i ==> s[j].0 < offset,
            decreases self.segments@.len() - i,
        {
            i = i + 1;
        }
        proof {
            if i < s.len() {
                assert(s[i as int].0 == self.segments@[i as int].0);
                assert(s[i as int].0 >= offset);
                assert forall|j: int| i <= j < s.len() implies s[j].0 >= offset by {
                    if j > i {
                        assert(s[i as int].0 < s[j].0);
                    }
                }
            }
            assert(insertion_point(s, offset, i as int));
            assert forall|i2: int| insertion_point(s, offset, i2) implies i2 == i by {
                if i2 < i {
                    assert(s[i2].0 >= offset);
                } else if i2 > i {
                    assert(s[i as int].0 < offset);
                }
            }
        }
        let payload = vstd::slice::slice_to_vec(segment.payload.as_slice());
        if i < self.segments.len() && self.segments[i].0 == offset {
            self.segments.set(i, (offset, payload));
            assert(self.view_segments() =~= s.update(i as int, (offset, segment.payload@)));
        } else {
            self.segments.insert(i, (offset, payload));
            assert(self.view_segments() =~= s.insert(i as int, (offset, segment.payload@)));
        }
        if !segment.tp_header.more {
            self.total_length = Some((offset as u64) * 16 + segment.payload.len() as u64);
        }
    }

    fn is_complete(&self) -> (r: bool)
        ensures
            r == is_complete(self.view_segments(), self.total_length),
    {
        let total = match self.total_length {
            Some(len) => len,
            None => return false,
        };
        let ghost s = self.view_segments();
        let mut expected_offset: u32 = 0;
        let mut accumulated: u64 = 0;
        let mut i: usize = 0;
        while i < self.segments.len()
            invariant
                0 <= i <= self.segments@.len(),
                s == self.view_segments(),
                accumulated == bytes_before(s, i as int),
                expected_offset == (bytes_before(s, i as int) / 16) as u32,
                forall|j: int| 0 <= j < i ==> #[trigger] s[j].0 == (bytes_before(s, j) / 16) as u32,
            decreases self.segments@.len() - i,
        {
            if self.segments[i].0 != expected_offset {
                assert(s[i as int].0 != (bytes_before(s, i as int) / 16) as u32);
                return false;
            }
            let len = self.segments[i].1.len() as u64;
            if accumulated > u64::MAX - len {
                proof {
                    lemma_bytes_before_monotone(s, i as int + 1, s.len() as int);
                }
                return false;
            }
            accumulated = accumulated + len;
            expected_offset = (accumulated / 16) as u32;
            i = i + 1;
        }
        accumulated >= total && accumulated <= 0xFFFF_FFF7
    }

    fn assemble(&self) -> (r: SomeIpMessage)
        requires
            is_complete(self.view_segments(), self.total_length),
        ensures
            r@ == assembled(self.view().1),
    {
        let ghost s = self.view_segments();
        let mut payload: Vec<u8> = Vec::new();
        let mut i: usize = 0;
        while i < self.segments.len()
            invariant
                0 <= i <= self.segments@.len(),
                s == self.view_segments(),
                payload@ == joined_before(s, i as int),
            decreases self.segments@.len() - i,
        {
            payload.extend_from_slice(self.segments[i].1.as_slice());
            i = i + 1;
        }
        proof {
            lemma_joined_len(s, s.len() as int);
        }
        let mut header = self.base_header;
        header.message_type = header.message_type.to_base();
        SomeIpMessage::new(header, payload)
    }
}

proof fn lemma_bytes_before_monotone(s: Seq<(u32, Seq<u8>)>, i: int, j: int)
    requires
        0 <= i <= j <= s.len(),
    ensures
        bytes_before(s, i) <= bytes_before(s, j),
    decreases j - i,
{
    if i < j {
        lemma_bytes_before_monotone(s, i, j - 1);
    }
}

proof fn lemma_joined_len(s: Seq<(u32, Seq<u8>)>, i: int)
    requires
        0 <= i <= s.len(),
    ensures
        joined_before(s, i).len() == bytes_before(s, i),
    decreases i,
{
    if i > 0 {
        lemma_joined_len(s, i - 1);
    }
}

/// Reassembles segmented messages; several messages may be in progress at once.
pub struct TpReassembler {
    contexts: Vec<ReassemblyContext>,
    timeout: u64,
    max_contexts: usize,
    max_buffered: u64,
}

impl View for TpReassembler {
    type V = Seq<(ReassemblyKey, ContextView)>;

    /// The reassemblies in progress, oldest first.
    closed spec fn view(&self) -> Seq<(ReassemblyKey, ContextView)> {
        self.contexts@.map_values(|c: ReassemblyContext| c.view())
    }
}

impl TpReassembler {
    /// Keys are unique and every context's offsets are sorted.
    pub closed spec fn wf(&self) -> bool {
        &&& forall|i: int, j: int|
            0 <= i < j < self.contexts@.len() ==> self.contexts@[i].key != self.contexts@[j].key
        &&& forall|i: int| 0 <= i < self.contexts@.len() ==> sorted_offsets(#[trigger] self.contexts@[i].view_segments())
    }

    /// The lifetime of an unfinished reassembly (milliseconds).
    pub closed spec fn spec_timeout(&self) -> u64 {
        self.timeout
    }

    /// The most reassemblies kept at once.
    pub closed spec fn spec_max_contexts(&self) -> usize {
        self.max_contexts
    }

    /// The most payload bytes buffered at once.
    pub closed spec fn spec_max_buffered(&self) -> u64 {
        self.max_buffered
    }

    /// A reassembler with the default timeout of five seconds and the default limits.
    pub fn new() -> (r: TpReassembler)
        ensures
            r.wf(),
            r@ == Seq::<(ReassemblyKey, ContextView)>::empty(),
            r.spec_timeout() == DEFAULT_REASSEMBLY_TIMEOUT_MS,
            r.spec_max_contexts() == DEFAULT_MAX_CONTEXTS,
            r.spec_max_buffered() == DEFAULT_MAX_BUFFERED,
    {
        Self::with_timeout(DEFAULT_REASSEMBLY_TIMEOUT_MS)
    }

    /// A reassembler whose unfinished messages expire after `timeout_ms`, with
    /// the default limits.
    pub fn with_timeout(timeout_ms: u64) -> (r: TpReassembler)
        ensures
            r.wf(),
            r@ == Seq::<(ReassemblyKey, ContextView)>::empty(),
            r.spec_timeout() == timeout_ms,
            r.spec_max_contexts() == DEFAULT_MAX_CONTEXTS,
            r.spec_max_buffered() == DEFAULT_MAX_BUFFERED,
    {
        Self::with_limits(timeout_ms, DEFAULT_MAX_CONTEXTS, DEFAULT_MAX_BUFFERED)
    }

    /// A reassembler whose unfinished messages expire after `timeout_ms`, that
    /// keeps at most `max_contexts` reassemblies and `max_buffered` payload
    /// bytes at once, dropping the oldest reassemblies first.
    pub fn with_limits(timeout_ms: u64, max_contexts: usize, max_buffered: u64) -> (r: TpReassembler)
        ensures
            r.wf(),
            r@ == Seq::<(ReassemblyKey, ContextView)>::empty(),
            r.spec_timeout() == timeout_ms,
            r.spec_max_contexts() == max_contexts,
            r.spec_max_buffered() == max_buffered,
    {
        let r = TpReassembler { contexts: Vec::new(), timeout: timeout_ms, max_contexts, max_buffered };
        assert(r@ =~= Seq::<(ReassemblyKey, ContextView)>::empty());
        r
    }

    fn buffered_bytes(&self) -> (r: u64)
        ensures
            r == buffered(self@),
    {
        let ghost v = self@;
        let mut total: u64 = 0;
        let mut i: usize = 0;
        while i < self.contexts.len()
            invariant
                0 <= i <= self.contexts@.len(),
                v == self@,
                total == buffered(v.subrange(0, i as int)),
            decreases self.contexts@.len() - i,
        {
            let ctx = &self.contexts[i];
            let ghost segs = ctx.view_segments();
            let mut sum: u64 = 0;
            let mut j: usize = 0;
            while j < ctx.segments.len()
                invariant
                    0 <= j <= ctx.segments@.len(),
                    segs == ctx.view_segments(),
                    sum == segment_bytes_total(segs.subrange(0, j as int)),
                decreases ctx.segments@.len() - j,
            {
                proof {
                    assert(segs.subrange(0, j + 1).drop_last() =~= segs.subrange(0, j as int));
                }
                let len = ctx.segments[j].1.len();
                let add: u64 = if len as u128 > u64::MAX as u128 { u64::MAX } else { len as u64 };
                sum = sum.saturating_add(add);
                j = j + 1;
            }
            proof {
                assert(segs.subrange(0, segs.len() as int) =~= segs);
                assert(v.subrange(0, i + 1).drop_last() =~= v.subrange(0, i as int));
                assert(v[i as int].1.segments == segs);
            }
            total = total.saturating_add(sum);
            i = i + 1;
        }
        assert(v.subrange(0, v.len() as int) =~= v);
        total
    }

    fn enforce_limits(&mut self)
        requires
            old(self).wf(),
        ensures
            final(self).wf(),
            final(self)@ == trim(old(self)@, old(self).max_contexts as int, old(self).max_buffered),
            final(self).timeout == old(self).timeout,
            final(self).max_contexts == old(self).max_contexts,
            final(self).max_buffered == old(self).max_buffered,
    {
        loop
            invariant
                self.wf(),
                trim(self@, self.max_contexts as int, self.max_buffered) == trim(
                    old(self)@,
                    old(self).max_contexts as int,
                    old(self).max_buffered,
                ),
                self.timeout == old(self).timeout,
                self.max_contexts == old(self).max_contexts,
                self.max_buffered == old(self).max_buffered,
            decreases self.contexts@.len(),
        {
            if self.contexts.len() == 0 {
                return;
            }
            let b = self.buffered_bytes();
            if self.contexts.len() > self.max_contexts || b > self.max_buffered {
                let ghost before = self@;
                let ghost eps = self.contexts@;
                let _dropped = self.contexts.remove(0);
                proof {
                    assert(self@ =~= before.drop_first());
                    assert(self.contexts@ =~= eps.drop_first());
                    assert forall|a: int, c: int| 0 <= a < c < self.contexts@.len() implies self.contexts@[a].key
                        != self.contexts@[c].key by {
                        assert(self.contexts@[a] == eps[a + 1] && self.contexts@[c] == eps[c + 1]);
                    }
                    assert forall|a: int| 0 <= a < self.contexts@.len() implies sorted_offsets(
                        #[trigger] self.contexts@[a].view_segments(),
                    ) by {
                        assert(self.contexts@[a] == eps[a + 1]);
                    }
                }
            } else {
                return;
            }
        }
    }

    /// Add a segment that arrived at time `now` (milliseconds). The segment
    /// joins the reassembly of its key, which is created with the segment's
    /// header if there is none. When the reassembly is complete it is removed
    /// and its message returned. Then, while more reassemblies or more payload
    /// bytes are held than the limits allow, the oldest reassembly is dropped.
    pub fn feed_at(&mut self, segment: TpSegment, now: u64) -> (r: Result<Option<SomeIpMessage>>)
        requires
            old(self).wf(),
            segment.payload@.len() <= u32::MAX,
        ensures
            final(self).wf(),
            final(self).spec_timeout() == old(self).spec_timeout(),
            final(self).spec_max_contexts() == old(self).spec_max_contexts(),
            final(self).spec_max_buffered() == old(self).spec_max_buffered(),
            exists|mid: Seq<(ReassemblyKey, ContextView)>|
                fed(old(self)@, mid, segment@, now, frame_result_view(r)) && final(self)@ == trim(
                    mid,
                    old(self).spec_max_contexts() as int,
                    old(self).spec_max_buffered(),
                ),
    {
        let r = self.feed_unbounded(segment, now);
        let ghost mid = self@;
        self.enforce_limits();
        r
    }

    fn feed_unbounded(&mut self, segment: TpSegment, now: u64) -> (r: Result<Option<SomeIpMessage>>)
        requires
            old(self).wf(),
            segment.payload@.len() <= u32::MAX,
        ensures
            final(self).wf(),
            final(self).timeout == old(self).timeout,
            final(self).max_contexts == old(self).max_contexts,
            final(self).max_buffered == old(self).max_buffered,
            fed(old(self)@, final(self)@, segment@, now, frame_result_view(r)),
    {
        let key = ReassemblyKey::from_header(&segment.header);
        let ghost old_view = self@;
        let mut i: usize = 0;
        while i < self.contexts.len() && self.contexts[i].key != key
            invariant
                0 <= i <= self.contexts@.len(),
                self@ == old_view,
                self.wf(),
                forall|j: int| 0 <= j < i ==> self.contexts@[j].key != key,
            decreases self.contexts@.len() - i,
        {
            i = i + 1;
        }
        proof {
            lemma_find_key(old_view, key, i as int);
        }
        if i == self.contexts.len() {
            let mut ctx = ReassemblyContext::new(segment.header, now);
            ctx.add_segment(&segment);
            if ctx.is_complete() {
                let message = ctx.assemble();
                return Ok(Some(message));
            }
            self.contexts.push(ctx);
            proof {
                assert(self@ =~= old_view.push((key, add_segment(
                    ContextView { header: segment.header, segments: Seq::empty(), total: None, created_at: now },
                    segment@,
                ))));
            }
            Ok(None)
        } else {
            let mut ctx = self.contexts.remove(i);
            proof {
                assert(sorted_offsets(old(self).contexts@[i as int].view_segments()));
            }
            ctx.add_segment(&segment);
            if ctx.is_complete() {
                let message = ctx.assemble();
                assert(self@ =~= old_view.remove(i as int));
                return Ok(Some(message));
            }
            self.contexts.insert(i, ctx);
            assert(self@ =~= old_view.update(i as int, (key, ctx.view().1)));
            Ok(None)
        }
    }

    /// Drop every reassembly that has outlived the timeout at time `now`
    /// (milliseconds), keeping the others in order; return how many went.
    pub fn cleanup_at(&mut self, now: u64) -> (r: usize)
        requires
            old(self).wf(),
        ensures
            final(self).wf(),
            final(self).spec_timeout() == old(self).spec_timeout(),
            final(self)@ == live(old(self)@, now, old(self).spec_timeout()),
            r == old(self)@.len() - final(self)@.len(),
            final(self).spec_max_contexts() == old(self).spec_max_contexts(),
            final(self).spec_max_buffered() == old(self).spec_max_buffered(),
    {
        let ghost old_view = self@;
        let before = self.contexts.len();
        let mut kept: Vec<ReassemblyContext> = Vec::new();
        let mut rest: Vec<ReassemblyContext> = Vec::new();
        core::mem::swap(&mut rest, &mut self.contexts);
        let ghost src = rest@;
        let ghost f = |c: ReassemblyContext| c.view();
        let mut i: usize = 0;
        while rest.len() > 0
            invariant
                before == old_view.len(),
                0 <= i <= src.len(),
                rest@ == src.subrange(i as int, src.len() as int),
                src.map_values(f) == old_view,
                f == (|c: ReassemblyContext| c.view()),
                kept@.map_values(f) == live(old_view.subrange(0, i as int), now, self.timeout),
                self.timeout == old(self).timeout,
                forall|a: int| 0 <= a < src.len() ==> sorted_offsets(#[trigger] src[a].view_segments()),
                forall|a: int| 0 <= a < kept@.len() ==> sorted_offsets(#[trigger] kept@[a].view_segments()),
            decreases rest@.len(),
        {
            assert(i < src.len());
            let c = rest.remove(0);
            proof {
                assert(c == src[i as int]);
                assert(old_view.subrange(0, i + 1).drop_last() =~= old_view.subrange(0, i as int));
                assert(old_view.subrange(0, i + 1).last() == f(c));
            }
            let expired = now > c.created_at && now - c.created_at > self.timeout;
            if !expired {
                kept.push(c);
                assert(kept@.map_values(f) =~= live(old_view.subrange(0, i as int), now, self.timeout).push(f(c)));
            }
            i = i + 1;
            assert(rest@ =~= src.subrange(i as int, src.len() as int));
        }
        proof {
            assert(old_view.subrange(0, src.len() as int) =~= old_view);
            lemma_live_keys(old_view, now, self.timeout);
            let kv = kept@.map_values(f);
            assert forall|a: int, b: int| 0 <= a < b < kept@.len() implies kept@[a].key != kept@[b].key by {
                assert(kv[a].0 == kept@[a].key);
                assert(kv[b].0 == kept@[b].key);
            }
        }
        self.contexts = kept;
        before - self.contexts.len()
    }

    /// Add a segment that arrives now; see `feed_at`.
    pub fn feed(&mut self, segment: TpSegment) -> (r: Result<Option<SomeIpMessage>>)
        requires
            old(self).wf(),
            segment.payload@.len() <= u32::MAX,
        ensures
            final(self).wf(),
            final(self).spec_timeout() == old(self).spec_timeout(),
            final(self).spec_max_contexts() == old(self).spec_max_contexts(),
            final(self).spec_max_buffered() == old(self).spec_max_buffered(),
            exists|now: u64, mid: Seq<(ReassemblyKey, ContextView)>|
                fed(old(self)@, mid, segment@, now, frame_result_view(r)) && final(self)@ == trim(
                    mid,
                    old(self).spec_max_contexts() as int,
                    old(self).spec_max_buffered(),
                ),
    {
        let now = clock_millis();
        self.feed_at(segment, now)
    }

    /// Drop every reassembly that has outlived the timeout now; see `cleanup_at`.
    pub fn cleanup(&mut self) -> (r: usize)
        requires
            old(self).wf(),
        ensures
            final(self).wf(),
            final(self).spec_timeout() == old(self).spec_timeout(),
            exists|now: u64| final(self)@ == live(old(self)@, now, old(self).spec_timeout()),
            r == old(self)@.len() - final(self)@.len(),
            final(self).spec_max_contexts() == old(self).spec_max_contexts(),
            final(self).spec_max_buffered() == old(self).spec_max_buffered(),
    {
        let now = clock_millis();
        self.cleanup_at(now)
    }

    /// The number of reassemblies in progress.
    pub fn active_contexts(&self) -> (r: usize)
        ensures
            r == self@.len(),
    {
        self.contexts.len()
    }

    /// Drop every reassembly in progress.
    pub fn clear(&mut self)
        ensures
            final(self).wf(),
            final(self)@ == Seq::<(ReassemblyKey, ContextView)>::empty(),
            final(self).spec_timeout() == old(self).spec_timeout(),
            final(self).spec_max_contexts() == old(self).spec_max_contexts(),
            final(self).spec_max_buffered() == old(self).spec_max_buffered(),
    {
        self.contexts.clear();
        assert(self@ =~= Seq::<(ReassemblyKey, ContextView)>::empty());
    }
}

impl Default for TpReassembler {
    fn default() -> (r: TpReassembler)
        ensures
            r.wf(),
            r@ == Seq::<(ReassemblyKey, ContextView)>::empty(),
            r.spec_timeout() == DEFAULT_REASSEMBLY_TIMEOUT_MS,
            r.spec_max_contexts() == DEFAULT_MAX_CONTEXTS,
            r.spec_max_buffered() == DEFAULT_MAX_BUFFERED,
    {
        TpReassembler::new()
    }
}

proof fn lemma_find_key(s: Seq<(ReassemblyKey, ContextView)>, k: ReassemblyKey, i: int)
    requires
        0 <= i <= s.len(),
        forall|j: int| 0 <= j < i ==> s[j].0 != k,
        i < s.len() ==> s[i].0 == k,
    ensures
        find_key(s, k) == i,
    decreases s.len(),
{
    if s.len() > 0 {
        let t = s.drop_last();
        if i < s.len() - 1 {
            lemma_find_key(t, k, i);
        } else {
            lemma_find_key(t, k, t.len() as int);
        }
    }
}

} // verus!
