//! Reassembling the segments of a message gives the message back, whatever
//! order they arrive in.
use vstd::prelude::*;
use crate::header::SomeIpHeader;
use crate::message::valid_message;
use crate::error::SomeIpError;
use crate::tp::reassembly::{
    add_segment, assembled, buffered, bytes_before, fed, find_key, gap_free, insert_segment, insertion_point,
    is_complete, joined_before, sat64, segment_bytes_total, trim, ContextView, ReassemblyKey,
};
use crate::tp::segment::{segment_count, segment_len, spec_segment};

verus! {

/// The stored form of segment `i` of `m` cut at `s` bytes: its offset and payload.
pub open spec fn seg_entry(m: (SomeIpHeader, Seq<u8>), s: int, i: int) -> (u32, Seq<u8>) {
    (spec_segment(m, s, i).1.offset, spec_segment(m, s, i).2)
}

/// The indices in `t` below `k`, increasing.
pub open spec fn arrived(t: Set<int>, k: int) -> Seq<int>
    decreases k,
{
    if k <= 0 {
        Seq::empty()
    } else if t.contains(k - 1) {
        arrived(t, k - 1).push(k - 1)
    } else {
        arrived(t, k - 1)
    }
}

/// The stored segments once the segments of `m` with indices in `t` arrived:
/// in index order.
pub open spec fn canon(m: (SomeIpHeader, Seq<u8>), s: int, t: Set<int>) -> Seq<(u32, Seq<u8>)> {
    arrived(t, segment_count(m.1.len() as int, s)).map_values(|i: int| seg_entry(m, s, i))
}

/// The conditions under which the segments of `m` cut at `s` bytes are considered.
pub open spec fn cut_ok(m: (SomeIpHeader, Seq<u8>), s: int) -> bool {
    &&& s >= 16
    &&& s % 16 == 0
    &&& m.1.len() > s
    &&& m.1.len() + 8 <= u32::MAX
}

pub proof fn lemma_count(m: (SomeIpHeader, Seq<u8>), s: int)
    requires
        cut_ok(m, s),
    ensures
        segment_count(m.1.len() as int, s) >= 2,
        (segment_count(m.1.len() as int, s) - 1) * s < m.1.len() <= segment_count(m.1.len() as int, s) * s,
{
    let len = m.1.len() as int;
    let n = segment_count(len, s);
    vstd::arithmetic::div_mod::lemma_fundamental_div_mod(len + s - 1, s);
    let r = (len + s - 1) % s;
    assert((n - 1) * s < len <= n * s) by (nonlinear_arith)
        requires
            len + s - 1 == s * n + r,
            0 <= r < s,
    ;
    assert(n >= 2) by (nonlinear_arith)
        requires
            len <= n * s,
            len > s,
            s > 0,
    ;
}

pub proof fn lemma_offset(m: (SomeIpHeader, Seq<u8>), s: int, i: int)
    requires
        cut_ok(m, s),
        0 <= i < segment_count(m.1.len() as int, s),
    ensures
        seg_entry(m, s, i).0 == i * (s / 16),
        i * s < m.1.len(),
        i * s == i * (s / 16) * 16,
{
    lemma_count(m, s);
    let n = segment_count(m.1.len() as int, s);
    let q = s / 16;
    assert(i * s <= (n - 1) * s) by (nonlinear_arith)
        requires
            i <= n - 1,
            s > 0,
    ;
    assert(i * s == (i * q) * 16) by (nonlinear_arith)
        requires
            s == q * 16,
    ;
    assert((i * s) / 16 == i * q) by (nonlinear_arith)
        requires
            i * s == (i * q) * 16,
    ;
}

proof fn lemma_offsets_increase(m: (SomeIpHeader, Seq<u8>), s: int, i: int, j: int)
    requires
        cut_ok(m, s),
        0 <= i < j < segment_count(m.1.len() as int, s),
    ensures
        seg_entry(m, s, i).0 < seg_entry(m, s, j).0,
{
    lemma_offset(m, s, i);
    lemma_offset(m, s, j);
    let q = s / 16;
    assert(i * q < j * q) by (nonlinear_arith)
        requires
            i < j,
            q >= 1,
    ;
}

proof fn lemma_arrived(t: Set<int>, k: int)
    requires
        k >= 0,
    ensures
        forall|x: int| 0 <= x < arrived(t, k).len() ==> 0 <= #[trigger] arrived(t, k)[x] < k && t.contains(arrived(t, k)[x]),
        forall|x: int, y: int| 0 <= x < y < arrived(t, k).len() ==> arrived(t, k)[x] < arrived(t, k)[y],
    decreases k,
{
    if k > 0 {
        lemma_arrived(t, k - 1);
        let a = arrived(t, k);
        let a1 = arrived(t, k - 1);
        if t.contains(k - 1) {
            assert forall|x: int| 0 <= x < a.len() implies 0 <= #[trigger] a[x] < k && t.contains(a[x]) by {
                if x < a1.len() {
                    assert(a[x] == a1[x]);
                }
            }
            assert forall|x: int, y: int| 0 <= x < y < a.len() implies a[x] < a[y] by {
                assert(a[x] == a1[x]);
                if y < a1.len() {
                    assert(a[y] == a1[y]);
                }
            }
        }
    } else {
        assert(arrived(t, k).len() == 0);
    }
}

proof fn lemma_arrived_split(t: Set<int>, a: int, b: int)
    requires
        0 <= a <= b,
    ensures
        arrived(t, a).len() <= arrived(t, b).len(),
        arrived(t, b).subrange(0, arrived(t, a).len() as int) == arrived(t, a),
        forall|x: int| arrived(t, a).len() <= x < arrived(t, b).len() ==> #[trigger] arrived(t, b)[x] >= a,
    decreases b - a,
{
    if a < b {
        lemma_arrived_split(t, a, b - 1);
        lemma_arrived(t, b - 1);
        let ab = arrived(t, b);
        let ab1 = arrived(t, b - 1);
        assert(ab.subrange(0, arrived(t, a).len() as int) =~= ab1.subrange(0, arrived(t, a).len() as int));
        assert forall|x: int| arrived(t, a).len() <= x < ab.len() implies #[trigger] ab[x] >= a by {
            if x < ab1.len() {
                assert(ab[x] == ab1[x]);
            }
        }
    } else {
        assert(arrived(t, b).subrange(0, arrived(t, a).len() as int) =~= arrived(t, a));
    }
}

proof fn lemma_arrived_same_below(t: Set<int>, j: int, a: int)
    requires
        0 <= a <= j,
    ensures
        arrived(t.insert(j), a) == arrived(t, a),
    decreases a,
{
    if a > 0 {
        lemma_arrived_same_below(t, j, a - 1);
        assert(t.insert(j).contains(a - 1) == t.contains(a - 1));
    }
}

proof fn lemma_arrived_with(t: Set<int>, j: int, k: int)
    requires
        0 <= j < k,
        !t.contains(j),
    ensures
        arrived(t.insert(j), k) == arrived(t, k).insert(arrived(t, j).len() as int, j),
    decreases k - j,
{
    let t2 = t.insert(j);
    lemma_arrived_same_below(t, j, j);
    lemma_arrived_split(t, j, k);
    if k == j + 1 {
        assert(arrived(t, k) == arrived(t, j));
        assert(arrived(t2, k) == arrived(t2, j).push(j));
        assert(arrived(t, j).insert(arrived(t, j).len() as int, j) =~= arrived(t, j).push(j));
    } else {
        lemma_arrived_with(t, j, k - 1);
        lemma_arrived_split(t, j, k - 1);
        let ip = arrived(t, j).len() as int;
        let c1 = arrived(t, k - 1);
        if t.contains(k - 1) {
            assert(t2.contains(k - 1));
            assert(c1.insert(ip, j).push(k - 1) =~= c1.push(k - 1).insert(ip, j));
        } else {
            assert(!t2.contains(k - 1));
        }
    }
}

/// Adding a segment that had not arrived puts it in its place.
pub proof fn lemma_canon_insert(m: (SomeIpHeader, Seq<u8>), s: int, t: Set<int>, j: int)
    requires
        cut_ok(m, s),
        0 <= j < segment_count(m.1.len() as int, s),
        !t.contains(j),
    ensures
        insert_segment(canon(m, s, t), seg_entry(m, s, j).0, seg_entry(m, s, j).1) == canon(m, s, t.insert(j)),
{
    let n = segment_count(m.1.len() as int, s);
    let f = |i: int| seg_entry(m, s, i);
    let ar = arrived(t, n);
    let c = canon(m, s, t);
    let e = seg_entry(m, s, j);
    let ip = arrived(t, j).len() as int;
    lemma_arrived(t, n);
    lemma_arrived(t, j);
    lemma_arrived_split(t, j, n);
    lemma_arrived_split(t, j + 1, n);
    assert(arrived(t, j + 1) == arrived(t, j));
    assert forall|x: int| 0 <= x < ip implies c[x].0 < e.0 by {
        assert(ar[x] == arrived(t, j)[x]);
        lemma_offsets_increase(m, s, ar[x], j);
    }
    assert forall|x: int| ip <= x < c.len() implies c[x].0 >= e.0 by {
        assert(ar[x] >= j + 1);
        lemma_offsets_increase(m, s, j, ar[x]);
    }
    assert(insertion_point(c, e.0, ip));
    assert forall|i2: int| insertion_point(c, e.0, i2) implies i2 == ip by {
        if i2 < ip {
            assert(c[i2].0 >= e.0);
        } else if i2 > ip {
            assert(c[ip].0 < e.0);
        }
    }
    if ip < c.len() {
        assert(ar[ip] >= j + 1);
        lemma_offsets_increase(m, s, j, ar[ip]);
        assert(c[ip].0 > e.0);
    }
    lemma_arrived_with(t, j, n);
    assert(arrived(t.insert(j), n).map_values(f) =~= ar.map_values(f).insert(ip, e));
}

/// Segment `i` (not the last) carries `s` bytes; the last carries the rest.
proof fn lemma_seg_len(m: (SomeIpHeader, Seq<u8>), s: int, i: int)
    requires
        cut_ok(m, s),
        0 <= i < segment_count(m.1.len() as int, s),
    ensures
        i < segment_count(m.1.len() as int, s) - 1 ==> seg_entry(m, s, i).1.len() == s,
        i == segment_count(m.1.len() as int, s) - 1 ==> seg_entry(m, s, i).1.len() == m.1.len() - i * s,
        seg_entry(m, s, i).1 == m.1.subrange(i * s, i * s + segment_len(m.1.len() as int, s, i)),
{
    let n = segment_count(m.1.len() as int, s);
    let len = m.1.len() as int;
    lemma_count(m, s);
    lemma_offset(m, s, i);
    assert(i * s + s == (i + 1) * s) by (nonlinear_arith);
    if i < n - 1 {
        assert((i + 1) * s <= (n - 1) * s) by (nonlinear_arith)
            requires
                i + 1 <= n - 1,
                s > 0,
        ;
    } else {
        assert(n * s == (n - 1) * s + s) by (nonlinear_arith);
    }
}

/// Stored segments that start with the first `i` segments (none of them the
/// last) hold `i * s` bytes, the payload's first `i * s` bytes.
proof fn lemma_prefix_bytes(m: (SomeIpHeader, Seq<u8>), s: int, c: Seq<(u32, Seq<u8>)>, i: int)
    requires
        cut_ok(m, s),
        0 <= i <= c.len(),
        i < segment_count(m.1.len() as int, s),
        forall|x: int| 0 <= x < i ==> #[trigger] c[x] == seg_entry(m, s, x),
    ensures
        bytes_before(c, i) == i * s,
        joined_before(c, i) == m.1.subrange(0, i * s),
    decreases i,
{
    if i > 0 {
        lemma_prefix_bytes(m, s, c, i - 1);
        lemma_seg_len(m, s, i - 1);
        lemma_offset(m, s, i - 1);
        assert((i - 1) * s + s == i * s) by (nonlinear_arith);
        assert(m.1.subrange(0, (i - 1) * s) + m.1.subrange((i - 1) * s, i * s) =~= m.1.subrange(0, i * s));
    } else {
        assert(m.1.subrange(0, 0) =~= Seq::<u8>::empty());
    }
}

proof fn lemma_arrived_full(t: Set<int>, k: int)
    requires
        k >= 0,
        forall|i: int| 0 <= i < k ==> t.contains(i),
    ensures
        arrived(t, k).len() == k,
        forall|x: int| 0 <= x < k ==> #[trigger] arrived(t, k)[x] == x,
    decreases k,
{
    if k > 0 {
        lemma_arrived_full(t, k - 1);
        let a = arrived(t, k);
        assert forall|x: int| 0 <= x < k implies #[trigger] a[x] == x by {
            if x < k - 1 {
                assert(a[x] == arrived(t, k - 1)[x]);
            }
        }
    }
}

/// The total length that the arrived segments make known.
pub open spec fn total_of(m: (SomeIpHeader, Seq<u8>), s: int, t: Set<int>) -> Option<u64> {
    if t.contains(segment_count(m.1.len() as int, s) - 1) {
        Some(m.1.len() as u64)
    } else {
        None
    }
}

/// With every segment arrived, the reassembly is complete and joins the payload.
proof fn lemma_full_complete(m: (SomeIpHeader, Seq<u8>), s: int, t: Set<int>)
    requires
        cut_ok(m, s),
        forall|i: int| 0 <= i < segment_count(m.1.len() as int, s) ==> t.contains(i),
    ensures
        is_complete(canon(m, s, t), total_of(m, s, t)),
        joined_before(canon(m, s, t), canon(m, s, t).len() as int) == m.1,
{
    let n = segment_count(m.1.len() as int, s);
    let len = m.1.len() as int;
    lemma_count(m, s);
    lemma_arrived_full(t, n);
    let c = canon(m, s, t);
    assert(c.len() == n);
    assert forall|x: int| 0 <= x < n implies #[trigger] c[x] == seg_entry(m, s, x) by {
        assert(arrived(t, n)[x] == x);
    }
    lemma_prefix_bytes(m, s, c, n - 1);
    lemma_seg_len(m, s, n - 1);
    assert(bytes_before(c, n) == len);
    assert(m.1.subrange(0, (n - 1) * s) + m.1.subrange((n - 1) * s, len) =~= m.1);
    assert(joined_before(c, n) == m.1);
    assert forall|i: int| 0 <= i < c.len() implies #[trigger] c[i].0 == (bytes_before(c, i) / 16) as u32 by {
        lemma_offset(m, s, i);
        lemma_prefix_bytes(m, s, c, i);
        let q = s / 16;
        assert((i * q * 16) / 16 == i * q) by (nonlinear_arith);
    }
    assert(gap_free(c));
}

/// With some segment missing, the reassembly is not complete.
proof fn lemma_partial_incomplete(m: (SomeIpHeader, Seq<u8>), s: int, t: Set<int>, j: int)
    requires
        cut_ok(m, s),
        0 <= j < segment_count(m.1.len() as int, s),
        !t.contains(j),
    ensures
        !is_complete(canon(m, s, t), total_of(m, s, t)),
{
    let n = segment_count(m.1.len() as int, s);
    lemma_count(m, s);
    if t.contains(n - 1) {
        lemma_smallest_missing(t, j);
        let j0 = choose|j0: int| 0 <= j0 <= j && !t.contains(j0) && forall|i: int| 0 <= i < j0 ==> t.contains(i);
        assert(j0 < n - 1);
        let ar = arrived(t, n);
        let c = canon(m, s, t);
        lemma_arrived_full(t, j0);
        lemma_arrived_split(t, j0, n);
        lemma_arrived_split(t, j0 + 1, n);
        lemma_arrived_split(t, j0 + 1, n - 1);
        assert(arrived(t, j0 + 1) == arrived(t, j0));
        assert(ar == arrived(t, n - 1).push(n - 1));
        assert(ar.len() > j0);
        assert forall|x: int| 0 <= x < j0 implies #[trigger] c[x] == seg_entry(m, s, x) by {
            assert(ar[x] == ar.subrange(0, j0)[x]);
            assert(arrived(t, j0)[x] == x);
        }
        lemma_prefix_bytes(m, s, c, j0);
        assert(ar[j0] >= j0 + 1);
        lemma_arrived(t, n);
        lemma_offset(m, s, j0);
        lemma_offset(m, s, ar[j0]);
        let q = s / 16;
        assert(j0 * q < ar[j0] * q) by (nonlinear_arith)
            requires
                j0 < ar[j0],
                q >= 1,
        ;
        assert((j0 * q * 16) / 16 == j0 * q) by (nonlinear_arith);
        assert(c[j0].0 != (bytes_before(c, j0) / 16) as u32);
    }
}

proof fn lemma_smallest_missing(t: Set<int>, j: int)
    requires
        0 <= j,
        !t.contains(j),
    ensures
        exists|j0: int| 0 <= j0 <= j && !t.contains(j0) && forall|i: int| 0 <= i < j0 ==> t.contains(i),
    decreases j,
{
    if !(forall|i: int| 0 <= i < j ==> t.contains(i)) {
        let i = choose|i: int| 0 <= i < j && !t.contains(i);
        lemma_smallest_missing(t, i);
    }
}

/// The reassembly `c` after the segments of `m` (cut at `s` bytes) with
/// indices `order` arrived, in that order.
pub open spec fn fold_segments(c: ContextView, m: (SomeIpHeader, Seq<u8>), s: int, order: Seq<int>) -> ContextView
    decreases order.len(),
{
    if order.len() == 0 {
        c
    } else {
        add_segment(fold_segments(c, m, s, order.drop_last()), spec_segment(m, s, order.last()))
    }
}

/// The indices among the first `k` of `order`.
pub open spec fn prefix_set(order: Seq<int>, k: int) -> Set<int>
    decreases k,
{
    if k <= 0 {
        Set::empty()
    } else {
        prefix_set(order, k - 1).insert(order[k - 1])
    }
}

proof fn lemma_prefix_set(order: Seq<int>, k: int, i: int)
    requires
        0 <= k <= order.len(),
    ensures
        prefix_set(order, k).contains(i) <==> exists|x: int| 0 <= x < k && order[x] == i,
    decreases k,
{
    if k > 0 {
        lemma_prefix_set(order, k - 1, i);
        if order[k - 1] == i {
            assert(exists|x: int| 0 <= x < k && order[x] == i);
        } else if prefix_set(order, k).contains(i) {
            let x = choose|x: int| 0 <= x < k - 1 && order[x] == i;
            assert(0 <= x < k && order[x] == i);
        } else {
            assert forall|x: int| 0 <= x < k implies order[x] != i by {
                if x < k - 1 {
                }
            }
        }
    }
}

proof fn lemma_to_base_to_tp(t: crate::types::MessageType)
    requires
        !t.spec_is_tp(),
    ensures
        t.spec_to_tp().spec_to_base() == t,
{
}

/// What the reassembly holds after the first `k` segments of `order` arrived.
proof fn lemma_fold(m: (SomeIpHeader, Seq<u8>), s: int, order: Seq<int>, c0: ContextView, k: int)
    requires
        cut_ok(m, s),
        0 <= k <= order.len(),
        forall|x: int| 0 <= x < order.len() ==> 0 <= #[trigger] order[x] < segment_count(m.1.len() as int, s),
        forall|x: int, y: int| 0 <= x < y < order.len() ==> order[x] != order[y],
        c0.segments == Seq::<(u32, Seq<u8>)>::empty(),
        c0.total is None,
    ensures
        fold_segments(c0, m, s, order.subrange(0, k)).segments == canon(m, s, prefix_set(order, k)),
        fold_segments(c0, m, s, order.subrange(0, k)).total == total_of(m, s, prefix_set(order, k)),
        fold_segments(c0, m, s, order.subrange(0, k)).header == c0.header,
    decreases k,
{
    let n = segment_count(m.1.len() as int, s);
    lemma_count(m, s);
    if k == 0 {
        assert(order.subrange(0, 0) =~= Seq::<int>::empty());
        lemma_arrived(Set::<int>::empty(), n);
        if arrived(Set::<int>::empty(), n).len() > 0 {
            assert(Set::<int>::empty().contains(arrived(Set::<int>::empty(), n)[0]));
        }
        assert(arrived(Set::<int>::empty(), n) =~= Seq::<int>::empty());
        assert(canon(m, s, Set::<int>::empty()) =~= Seq::<(u32, Seq<u8>)>::empty());
    } else {
        lemma_fold(m, s, order, c0, k - 1);
        let j = order[k - 1];
        let t = prefix_set(order, k - 1);
        assert(order.subrange(0, k).drop_last() =~= order.subrange(0, k - 1));
        assert(order.subrange(0, k).last() == j);
        lemma_prefix_set(order, k - 1, j);
        assert(!t.contains(j)) by {
            if t.contains(j) {
                let x = choose|x: int| 0 <= x < k - 1 && order[x] == j;
                assert(order[x] != order[k - 1]);
            }
        }
        lemma_canon_insert(m, s, t, j);
        let seg = spec_segment(m, s, j);
        if j == n - 1 {
            lemma_offset(m, s, j);
            lemma_seg_len(m, s, j);
            assert(seg.1.offset as int * 16 + seg.2.len() == m.1.len());
        }
        assert(total_of(m, s, t.insert(j)) == if j == n - 1 { Some(m.1.len() as u64) } else { total_of(m, s, t) });
    }
}

/// Reassembly law: when the segments of a valid, unsegmented message (cut at
/// a multiple of 16 bytes smaller than its payload) arrive in any order, each
/// exactly once, into a reassembly started by the first of them, the
/// reassembly is incomplete until the last one arrives and then yields the
/// message itself. (`feed_at` adds each segment of a key to its reassembly in
/// this way and returns the message exactly when the reassembly is complete.)
pub proof fn lemma_reassembly_any_order(m: (SomeIpHeader, Seq<u8>), s: int, order: Seq<int>, now: u64)
    requires
        valid_message(m),
        !m.0.message_type.spec_is_tp(),
        cut_ok(m, s),
        order.len() == segment_count(m.1.len() as int, s),
        forall|x: int| 0 <= x < order.len() ==> 0 <= #[trigger] order[x] < segment_count(m.1.len() as int, s),
        forall|x: int, y: int| 0 <= x < y < order.len() ==> order[x] != order[y],
        forall|i: int| 0 <= i < segment_count(m.1.len() as int, s) ==> #[trigger] order.contains(i),
    ensures
        ({
            let c0 = ContextView {
                header: spec_segment(m, s, order[0]).0,
                segments: Seq::empty(),
                total: None,
                created_at: now,
            };
            let done = fold_segments(c0, m, s, order);
            &&& forall|k: int|
                1 <= k < order.len() ==> !is_complete(
                    #[trigger] fold_segments(c0, m, s, order.subrange(0, k)).segments,
                    fold_segments(c0, m, s, order.subrange(0, k)).total,
                )
            &&& is_complete(done.segments, done.total)
            &&& assembled(done) == m
        }),
{
    let n = segment_count(m.1.len() as int, s);
    lemma_count(m, s);
    let c0 = ContextView { header: spec_segment(m, s, order[0]).0, segments: Seq::empty(), total: None, created_at: now };
    assert forall|k: int| 1 <= k < order.len() implies !is_complete(
        #[trigger] fold_segments(c0, m, s, order.subrange(0, k)).segments,
        fold_segments(c0, m, s, order.subrange(0, k)).total,
    ) by {
        lemma_fold(m, s, order, c0, k);
        let j = order[k];
        lemma_prefix_set(order, k, j);
        if prefix_set(order, k).contains(j) {
            let x = choose|x: int| 0 <= x < k && order[x] == j;
            assert(order[x] != order[k]);
        }
        lemma_partial_incomplete(m, s, prefix_set(order, k), j);
    }
    lemma_fold(m, s, order, c0, n);
    assert(order.subrange(0, n) =~= order);
    let t = prefix_set(order, n);
    assert forall|i: int| 0 <= i < n implies t.contains(i) by {
        lemma_prefix_set(order, n, i);
        assert(order.contains(i));
        let x = choose|x: int| 0 <= x < order.len() && order[x] == i;
        assert(0 <= x < n && order[x] == i);
    }
    lemma_full_complete(m, s, t);
    lemma_to_base_to_tp(m.0.message_type);
}

proof fn lemma_bytes_before_prefix(s: Seq<(u32, Seq<u8>)>, t: Seq<(u32, Seq<u8>)>, i: int)
    requires
        0 <= i <= s.len(),
        i <= t.len(),
        forall|x: int| 0 <= x < i ==> s[x] == t[x],
    ensures
        bytes_before(s, i) == bytes_before(t, i),
    decreases i,
{
    if i > 0 {
        lemma_bytes_before_prefix(s, t, i - 1);
    }
}

proof fn lemma_total_le_bytes(s: Seq<(u32, Seq<u8>)>)
    ensures
        segment_bytes_total(s) <= bytes_before(s, s.len() as int),
    decreases s.len(),
{
    if s.len() > 0 {
        let d = s.drop_last();
        lemma_total_le_bytes(d);
        lemma_bytes_before_prefix(d, s, d.len() as int);
    }
}

/// The segments of `m` below index `k` that arrived hold at most `k * s` bytes
/// (at most the payload length once `k` reaches the segment count).
proof fn lemma_arrived_bytes(m: (SomeIpHeader, Seq<u8>), s: int, t: Set<int>, k: int)
    requires
        cut_ok(m, s),
        0 <= k <= segment_count(m.1.len() as int, s),
    ensures
        ({
            let c = arrived(t, k).map_values(|i: int| seg_entry(m, s, i));
            &&& k < segment_count(m.1.len() as int, s) ==> bytes_before(c, c.len() as int) <= k * s
            &&& bytes_before(c, c.len() as int) <= m.1.len()
        }),
    decreases k,
{
    let n = segment_count(m.1.len() as int, s);
    lemma_count(m, s);
    let f = |i: int| seg_entry(m, s, i);
    let c = arrived(t, k).map_values(f);
    if k == 0 {
        assert(c.len() == 0);
    } else {
        lemma_arrived_bytes(m, s, t, k - 1);
        let c1 = arrived(t, k - 1).map_values(f);
        assert((k - 1) * s + s == k * s) by (nonlinear_arith);
        assert((k - 1) * s <= (n - 1) * s) by (nonlinear_arith)
            requires
                k - 1 <= n - 1,
                s > 0,
        ;
        if t.contains(k - 1) {
            assert(c =~= c1.push(f(k - 1)));
            lemma_bytes_before_prefix(c1, c, c1.len() as int);
            lemma_seg_len(m, s, k - 1);
            assert(bytes_before(c, c.len() as int) == bytes_before(c1, c1.len() as int) + seg_entry(m, s, k - 1).1.len());
        } else {
            assert(c =~= c1);
        }
    }
}

/// A single reassembly of the segments of `m` stays within limits of at
/// least one reassembly and the payload length.
proof fn lemma_trim_single(m: (SomeIpHeader, Seq<u8>), s: int, t: Set<int>, c: ContextView, key: ReassemblyKey, max_contexts: int, max_buffered: u64)
    requires
        cut_ok(m, s),
        c.segments == canon(m, s, t),
        max_contexts >= 1,
        max_buffered >= m.1.len(),
    ensures
        trim(seq![(key, c)], max_contexts, max_buffered) == seq![(key, c)],
        trim(Seq::<(ReassemblyKey, ContextView)>::empty(), max_contexts, max_buffered) == Seq::<(ReassemblyKey, ContextView)>::empty(),
{
    let n = segment_count(m.1.len() as int, s);
    lemma_arrived_bytes(m, s, t, n);
    lemma_total_le_bytes(c.segments);
    let v = seq![(key, c)];
    assert(v.drop_last() =~= Seq::<(ReassemblyKey, ContextView)>::empty());
    assert(buffered(Seq::<(ReassemblyKey, ContextView)>::empty()) == 0);
    assert(buffered(v) == sat64(0 + segment_bytes_total(c.segments)));
}

proof fn lemma_find_single(c: ContextView, k: ReassemblyKey)
    ensures
        find_key(seq![(k, c)], k) == 0,
        find_key(Seq::<(ReassemblyKey, ContextView)>::empty(), k) == 0,
{
    let s = seq![(k, c)];
    assert(s.drop_last() =~= Seq::<(ReassemblyKey, ContextView)>::empty());
    assert(find_key(Seq::<(ReassemblyKey, ContextView)>::empty(), k) == 0);
    assert(s.last() == (k, c));
    assert(find_key(s.drop_last(), k) == 0);
}

/// Reassembler law: feeding the segments of a valid, unsegmented message
/// (cut at a multiple of 16 bytes smaller than its payload) to an empty
/// reassembler in any order, each exactly once and at any times, in the way
/// `feed_at` promises, returns nothing until the last one and then the message
/// itself, and leaves the reassembler empty, provided its limits allow one
/// reassembly and as many bytes as the payload.
pub proof fn lemma_reassembler_any_order(
    m: (SomeIpHeader, Seq<u8>),
    s: int,
    order: Seq<int>,
    states: Seq<Seq<(ReassemblyKey, ContextView)>>,
    results: Seq<Result<Option<(SomeIpHeader, Seq<u8>)>, SomeIpError>>,
    times: Seq<u64>,
    max_contexts: int,
    max_buffered: u64,
)
    requires
        valid_message(m),
        !m.0.message_type.spec_is_tp(),
        cut_ok(m, s),
        order.len() == segment_count(m.1.len() as int, s),
        forall|x: int| 0 <= x < order.len() ==> 0 <= #[trigger] order[x] < segment_count(m.1.len() as int, s),
        forall|x: int, y: int| 0 <= x < y < order.len() ==> order[x] != order[y],
        forall|i: int| 0 <= i < segment_count(m.1.len() as int, s) ==> #[trigger] order.contains(i),
        states.len() == order.len() + 1,
        results.len() == order.len(),
        times.len() == order.len(),
        states[0] == Seq::<(ReassemblyKey, ContextView)>::empty(),
        max_contexts >= 1,
        max_buffered >= m.1.len(),
        forall|k: int|
            0 <= k < order.len() ==> exists|mid: Seq<(ReassemblyKey, ContextView)>|
                fed(#[trigger] states[k], mid, spec_segment(m, s, order[k]), times[k], results[k])
                    && states[k + 1] == trim(mid, max_contexts, max_buffered),
    ensures
        forall|k: int| 0 <= k < order.len() - 1 ==> #[trigger] results[k] == Ok::<Option<(SomeIpHeader, Seq<u8>)>, SomeIpError>(None),
        results[order.len() - 1] == Ok::<Option<(SomeIpHeader, Seq<u8>)>, SomeIpError>(Some(m)),
        states[order.len() as int] == Seq::<(ReassemblyKey, ContextView)>::empty(),
{
    let n = order.len() as int;
    lemma_count(m, s);
    lemma_reassembly_any_order(m, s, order, times[0]);
    let key = ReassemblyKey::spec_of(m.0);
    let c0 = ContextView { header: spec_segment(m, s, order[0]).0, segments: Seq::empty(), total: None, created_at: times[0] };
    assert forall|k: int| 1 <= k <= n implies (k < n ==> #[trigger] states[k] == seq![(key, fold_segments(c0, m, s, order.subrange(0, k)))] && results[k - 1] == Ok::<Option<(SomeIpHeader, Seq<u8>)>, SomeIpError>(None)) && (k == n ==> states[k] == Seq::<(ReassemblyKey, ContextView)>::empty() && results[k - 1] == Ok::<Option<(SomeIpHeader, Seq<u8>)>, SomeIpError>(Some(m))) by {
        lemma_states(m, s, order, states, results, times, max_contexts, max_buffered, k);
    }
    assert forall|k: int| 0 <= k < n - 1 implies #[trigger] results[k] == Ok::<Option<(SomeIpHeader, Seq<u8>)>, SomeIpError>(None) by {
        assert(states[k + 1] == seq![(key, fold_segments(c0, m, s, order.subrange(0, k + 1)))] && results[k] == Ok::<Option<(SomeIpHeader, Seq<u8>)>, SomeIpError>(None));
    }
    assert(states[n] == Seq::<(ReassemblyKey, ContextView)>::empty() && results[n - 1] == Ok::<Option<(SomeIpHeader, Seq<u8>)>, SomeIpError>(Some(m)));
}

proof fn lemma_states(
    m: (SomeIpHeader, Seq<u8>),
    s: int,
    order: Seq<int>,
    states: Seq<Seq<(ReassemblyKey, ContextView)>>,
    results: Seq<Result<Option<(SomeIpHeader, Seq<u8>)>, SomeIpError>>,
    times: Seq<u64>,
    max_contexts: int,
    max_buffered: u64,
    k: int,
)
    requires
        valid_message(m),
        !m.0.message_type.spec_is_tp(),
        cut_ok(m, s),
        order.len() == segment_count(m.1.len() as int, s),
        forall|x: int| 0 <= x < order.len() ==> 0 <= #[trigger] order[x] < segment_count(m.1.len() as int, s),
        forall|x: int, y: int| 0 <= x < y < order.len() ==> order[x] != order[y],
        forall|i: int| 0 <= i < segment_count(m.1.len() as int, s) ==> #[trigger] order.contains(i),
        states.len() == order.len() + 1,
        results.len() == order.len(),
        times.len() == order.len(),
        states[0] == Seq::<(ReassemblyKey, ContextView)>::empty(),
        max_contexts >= 1,
        max_buffered >= m.1.len(),
        forall|k: int|
            0 <= k < order.len() ==> exists|mid: Seq<(ReassemblyKey, ContextView)>|
                fed(#[trigger] states[k], mid, spec_segment(m, s, order[k]), times[k], results[k])
                    && states[k + 1] == trim(mid, max_contexts, max_buffered),
        1 <= k <= order.len(),
    ensures
        ({
            let key = ReassemblyKey::spec_of(m.0);
            let c0 = ContextView {
                header: spec_segment(m, s, order[0]).0,
                segments: Seq::empty(),
                total: None,
                created_at: times[0],
            };
            &&& k < order.len() ==> states[k] == seq![(key, fold_segments(c0, m, s, order.subrange(0, k)))]
                && results[k - 1] == Ok::<Option<(SomeIpHeader, Seq<u8>)>, SomeIpError>(None)
            &&& k == order.len() ==> states[k] == Seq::<(ReassemblyKey, ContextView)>::empty()
                && results[k - 1] == Ok::<Option<(SomeIpHeader, Seq<u8>)>, SomeIpError>(Some(m))
        }),
    decreases k,
{
    let n = order.len() as int;
    lemma_count(m, s);
    lemma_reassembly_any_order(m, s, order, times[0]);
    let key = ReassemblyKey::spec_of(m.0);
    let c0 = ContextView { header: spec_segment(m, s, order[0]).0, segments: Seq::empty(), total: None, created_at: times[0] };
    let seg = spec_segment(m, s, order[k - 1]);
    assert(ReassemblyKey::spec_of(seg.0) == key);
    assert(order.subrange(0, k).drop_last() =~= order.subrange(0, k - 1));
    assert(order.subrange(0, k).last() == order[k - 1]);
    let cur = fold_segments(c0, m, s, order.subrange(0, k));
    assert(exists|mid: Seq<(ReassemblyKey, ContextView)>|
        fed(states[k - 1], mid, seg, times[k - 1], results[k - 1]) && states[k] == trim(mid, max_contexts, max_buffered));
    let mid = choose|mid: Seq<(ReassemblyKey, ContextView)>|
        fed(states[k - 1], mid, seg, times[k - 1], results[k - 1]) && states[k] == trim(mid, max_contexts, max_buffered);
    lemma_fold(m, s, order, c0, k);
    lemma_trim_single(m, s, prefix_set(order, k), cur, key, max_contexts, max_buffered);
    if k == 1 {
        lemma_find_single(c0, key);
        assert(order.subrange(0, 0) =~= Seq::<int>::empty());
        assert(fold_segments(c0, m, s, order.subrange(0, 0)) == c0);
        assert(cur == add_segment(c0, seg));
        assert(Seq::<(ReassemblyKey, ContextView)>::empty().push((key, cur)) =~= seq![(key, cur)]);
    } else {
        lemma_states(m, s, order, states, results, times, max_contexts, max_buffered, k - 1);
        let prev = fold_segments(c0, m, s, order.subrange(0, k - 1));
        lemma_find_single(prev, key);
        assert(cur == add_segment(prev, seg));
        assert(seq![(key, prev)].update(0, (key, cur)) =~= seq![(key, cur)]);
        assert(seq![(key, prev)].remove(0) =~= Seq::<(ReassemblyKey, ContextView)>::empty());
    }
    if k == n {
        assert(order.subrange(0, n) =~= order);
    }
}

} // verus!
