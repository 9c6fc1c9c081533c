//! Segments of a large message and the segmenter.
use vstd::prelude::*;
use crate::error::{Result, SomeIpError};
use crate::header::{be_u32_at, be_u32_bytes, SomeIpHeader, HEADER_SIZE};
use crate::message::SomeIpMessage;
use crate::tp::header::{TpHeader, TP_HEADER_SIZE};

verus! {

/// Default largest segment payload: the largest multiple of 16 within 1400 bytes.
pub const DEFAULT_MAX_SEGMENT_PAYLOAD: usize = 1392;

/// One segment of a large message.
#[derive(Debug, Clone, PartialEq, Eq)]
pub struct TpSegment {
    /// SOME/IP header of the segment (segmented message type).
    pub header: SomeIpHeader,
    /// Segment header.
    pub tp_header: TpHeader,
    /// Segment payload.
    pub payload: Vec<u8>,
}

impl View for TpSegment {
    type V = (SomeIpHeader, TpHeader, Seq<u8>);

    open spec fn view(&self) -> (SomeIpHeader, TpHeader, Seq<u8>) {
        (self.header, self.tp_header, self.payload@)
    }
}

/// The wire bytes of a segment: SOME/IP header, segment header, payload.
pub open spec fn segment_bytes(s: (SomeIpHeader, TpHeader, Seq<u8>)) -> Seq<u8> {
    s.0.spec_bytes() + be_u32_bytes(s.1.spec_word()) + s.2
}

impl TpSegment {
    /// Create a segment.
    pub fn new(header: SomeIpHeader, tp_header: TpHeader, payload: Vec<u8>) -> (r: TpSegment)
        ensures
            r.header == header,
            r.tp_header == tp_header,
            r.payload@ == payload@,
    {
        TpSegment { header, tp_header, payload }
    }

    /// Decode a segment. The length field must cover the segment header and
    /// account for exactly the bytes of `data` (`data.len() == 8 + length`);
    /// otherwise the length is inconsistent and decoding fails. A decoded
    /// segment's length field therefore always equals `8 + 4 + payload length`.
    pub fn from_bytes(data: &[u8]) -> (r: Result<TpSegment>)
        ensures
            data@.len() < HEADER_SIZE + TP_HEADER_SIZE ==> r == Err::<TpSegment, SomeIpError>(
                SomeIpError::MessageTooShort {
                    expected: 20,
                    actual: data@.len() as usize,
                },
            ),
            data@.len() >= HEADER_SIZE + TP_HEADER_SIZE ==> match SomeIpHeader::parse(data@) {
                Err(e) => r == Err::<TpSegment, SomeIpError>(e),
                Ok(h) => if !h.message_type.spec_is_tp() {
                    r matches Err(SomeIpError::InvalidHeader(_))
                } else if h.spec_payload_length() < TP_HEADER_SIZE || data@.len() != HEADER_SIZE
                    + h.spec_payload_length() {
                    r == Err::<TpSegment, SomeIpError>(
                        SomeIpError::LengthMismatch {
                            header_length: h.length,
                            actual_length: (data@.len() - 8) as usize,
                        },
                    )
                } else {
                    r matches Ok(s) && s@ == (
                        h,
                        TpHeader::spec_from_word(be_u32_at(data@, 16)),
                        data@.subrange(20, data@.len() as int),
                    )
                },
            },
            r matches Ok(s) ==> s.header.length == 12 + s.payload@.len() && data@.len() == 8 + s.header.length,
    {
        let min_size = HEADER_SIZE + TP_HEADER_SIZE;
        if data.len() < min_size {
            return Err(SomeIpError::MessageTooShort { expected: min_size, actual: data.len() });
        }
        let header = match SomeIpHeader::from_bytes(data) {
            Ok(h) => h,
            Err(e) => return Err(e),
        };
        if !header.message_type.is_tp() {
            return Err(SomeIpError::invalid_header("Expected TP message type"));
        }
        let payload_len = header.payload_length() as usize;
        if payload_len < TP_HEADER_SIZE || data.len() - HEADER_SIZE != payload_len {
            return Err(
                SomeIpError::LengthMismatch { header_length: header.length, actual_length: data.len() - 8 },
            );
        }
        let tp_header = match TpHeader::from_bytes(
            vstd::slice::slice_subrange(data, HEADER_SIZE, HEADER_SIZE + TP_HEADER_SIZE),
        ) {
            Ok(t) => t,
            Err(e) => return Err(e),
        };
        let payload = vstd::slice::slice_to_vec(
            vstd::slice::slice_subrange(data, HEADER_SIZE + TP_HEADER_SIZE, HEADER_SIZE + payload_len),
        );
        Ok(TpSegment { header, tp_header, payload })
    }

    /// Encode this segment.
    pub fn to_bytes(&self) -> (r: Vec<u8>)
        ensures
            r@ == segment_bytes(self@),
    {
        let mut buf: Vec<u8> = Vec::new();
        self.header.write_to(&mut buf);
        self.tp_header.write_to(&mut buf);
        buf.extend_from_slice(self.payload.as_slice());
        assert(buf@ =~= segment_bytes(self@));
        buf
    }

    /// The byte offset of this segment's payload.
    pub fn byte_offset(&self) -> (r: usize)
        requires
            self.tp_header.spec_byte_offset() <= usize::MAX,
        ensures
            r == self.tp_header.spec_byte_offset(),
    {
        self.tp_header.byte_offset()
    }

    /// Whether this is the last segment.
    pub fn is_last(&self) -> (r: bool)
        ensures
            r == !self.tp_header.more,
    {
        !self.tp_header.more
    }
}

/// Segment `i` of a payload of `len` bytes cut at `s` bytes: it starts at
/// `i * s` and holds up to `s` bytes.
pub open spec fn segment_len(len: int, s: int, i: int) -> int {
    if len - i * s < s {
        len - i * s
    } else {
        s
    }
}

/// The number of segments for a payload of `len` bytes cut at `s` bytes:
/// none when it fits in one datagram, else `ceil(len / s)`.
pub open spec fn segment_count(len: int, s: int) -> int {
    if len <= s {
        0
    } else {
        (len + s - 1) / s
    }
}

/// The view of segment `i` of `m` cut at `s` bytes.
pub open spec fn spec_segment(m: (SomeIpHeader, Seq<u8>), s: int, i: int) -> (SomeIpHeader, TpHeader, Seq<u8>) {
    let len = m.1.len() as int;
    let n = segment_count(len, s);
    let seg_len = segment_len(len, s, i);
    (
        SomeIpHeader {
            message_type: m.0.message_type.spec_to_tp(),
            length: (12 + seg_len) as u32,
            ..m.0
        },
        TpHeader { offset: ((i * s) / 16) as u32, more: i < n - 1 },
        m.1.subrange(i * s, i * s + seg_len),
    )
}

proof fn lemma_ceil_div(len: int, s: int, n: int)
    requires
        s > 0,
        n >= 1,
        (n - 1) * s < len <= n * s,
    ensures
        n == (len + s - 1) / s,
{
    assert((n - 1) * s + s == n * s) by (nonlinear_arith);
    assert(len + s - 1 >= n * s) by (nonlinear_arith)
        requires
            (n - 1) * s < len,
            (n - 1) * s + s == n * s,
    ;
    assert(len + s - 1 < (n + 1) * s) by (nonlinear_arith)
        requires
            len <= n * s,
            s > 0,
    ;
    vstd::arithmetic::div_mod::lemma_fundamental_div_mod(len + s - 1, s);
    let q = (len + s - 1) / s;
    let r = (len + s - 1) % s;
    assert(0 <= r < s);
    assert(q == n) by (nonlinear_arith)
        requires
            len + s - 1 == s * q + r,
            0 <= r < s,
            n * s <= len + s - 1 < (n + 1) * s,
            s > 0,
    ;
}

/// Cut `message` into segments of at most `max_segment_payload` bytes. A
/// payload that fits in one segment gives no segments: the message goes out
/// whole.
pub fn segment_message(message: &SomeIpMessage, max_segment_payload: usize) -> (r: Vec<TpSegment>)
    requires
        max_segment_payload > 0,
        max_segment_payload + 12 <= u32::MAX,
        message.payload@.len() / 16 <= u32::MAX,
    ensures
        r@.len() == segment_count(message.payload@.len() as int, max_segment_payload as int),
        forall|i: int|
            0 <= i < r@.len() ==> #[trigger] r@[i]@ == spec_segment(message@, max_segment_payload as int, i),
        forall|i: int| 0 <= i < r@.len() ==> (#[trigger] r@[i]).tp_header.more == (i < r@.len() - 1),
        forall|i: int| 0 <= i < r@.len() - 1 ==> (#[trigger] r@[i]).payload@.len() == max_segment_payload,
        max_segment_payload % 16 == 0 ==> forall|i: int|
            0 <= i < r@.len() - 1 ==> (#[trigger] r@[i]).payload@.len() % 16 == 0,
        r@.len() > 0 ==> 0 < r@.last().payload@.len() <= max_segment_payload,
        forall|i: int|
            0 <= i < r@.len() ==> (#[trigger] r@[i]).header.length == 12 + r@[i].payload@.len() && r@[i].payload@
                == message.payload@.subrange(
                i * max_segment_payload,
                i * max_segment_payload + r@[i].payload@.len(),
            ) && r@[i].tp_header.offset == ((i * max_segment_payload) / 16) as u32,
{
    let ghost m = message@;
    let ghost s = max_segment_payload as int;
    let ghost len = message.payload@.len() as int;
    let payload = &message.payload;
    if payload.len() <= max_segment_payload {
        return Vec::new();
    }
    let mut segments: Vec<TpSegment> = Vec::new();
    let mut offset: usize = 0;
    let tp_type = message.header.message_type.to_tp();
    while offset < payload.len()
        invariant
            m == message@,
            s == max_segment_payload,
            len == payload@.len(),
            payload@ == m.1,
            payload == &message.payload,
            len > s > 0,
            s + 12 <= u32::MAX,
            len / 16 <= u32::MAX,
            tp_type == message.header.message_type.spec_to_tp(),
            offset <= len,
            offset < len ==> offset == segments@.len() * s,
            offset == len ==> segments@.len() >= 1 && (segments@.len() - 1) * s < len <= segments@.len() * s,
            forall|j: int|
                0 <= j < segments@.len() ==> #[trigger] segments@[j]@ == (
                    SomeIpHeader {
                        message_type: m.0.message_type.spec_to_tp(),
                        length: (12 + segment_len(len, s, j)) as u32,
                        ..m.0
                    },
                    TpHeader { offset: ((j * s) / 16) as u32, more: (j + 1) * s < len },
                    m.1.subrange(j * s, j * s + segment_len(len, s, j)),
                ),
        decreases len - offset,
    {
        let ghost i = segments@.len() as int;
        let remaining = payload.len() - offset;
        let segment_size = if remaining < max_segment_payload { remaining } else { max_segment_payload };
        let is_last = offset + segment_size >= payload.len();
        let tp_header = TpHeader::from_byte_offset(offset, !is_last);
        let mut header = message.header;
        header.message_type = tp_type;
        header.length = 12 + segment_size as u32;
        let segment_payload = vstd::slice::slice_to_vec(
            vstd::slice::slice_subrange(payload.as_slice(), offset, offset + segment_size),
        );
        proof {
            assert((i + 1) * s == i * s + s) by (nonlinear_arith);
            assert(segment_size == segment_len(len, s, i));
        }
        let seg = TpSegment { header, tp_header, payload: segment_payload };
        proof {
            assert(offset == i * s);
            assert(seg.payload@ == payload@.subrange(offset as int, offset + segment_size));
            assert(payload@ == m.1);
            assert(offset + segment_size == i * s + segment_len(len, s, i));
            assert(seg.tp_header == TpHeader { offset: ((i * s) / 16) as u32, more: (i + 1) * s < len });
            assert(seg.header == SomeIpHeader {
                message_type: m.0.message_type.spec_to_tp(),
                length: (12 + segment_len(len, s, i)) as u32,
                ..m.0
            });
        }
        segments.push(seg);
        offset = offset + segment_size;
        proof {
            if offset == len {
                assert(i * s < len);
            }
        }
    }
    proof {
        let n = segments@.len() as int;
        lemma_ceil_div(len, s, n);
        assert forall|i: int| 0 <= i < segments@.len() implies #[trigger] segments@[i]@ == spec_segment(m, s, i) by {
            let a = segments@[i]@;
            assert(((i + 1) * s < len) == (i < n - 1)) by {
                if i < n - 1 {
                    assert((i + 1) * s <= (n - 1) * s) by (nonlinear_arith)
                        requires
                            i + 1 <= n - 1,
                            s > 0,
                    ;
                } else {
                    assert((i + 1) * s >= n * s) by (nonlinear_arith)
                        requires
                            i + 1 >= n,
                            s > 0,
                    ;
                }
            }
        }
        assert forall|i: int| 0 <= i < n implies {
            &&& (#[trigger] segments@[i]).tp_header.more == (i < n - 1)
            &&& i < n - 1 ==> segments@[i].payload@.len() == s
            &&& i == n - 1 ==> 0 < segments@[i].payload@.len() <= s
            &&& segments@[i].header.length == 12 + segments@[i].payload@.len()
            &&& segments@[i].payload@ == message.payload@.subrange(i * s, i * s + segments@[i].payload@.len())
            &&& segments@[i].tp_header.offset == ((i * s) / 16) as u32
        } by {
            lemma_segment_shape(m, s, i);
            assert(segments@[i]@ == spec_segment(m, s, i));
        }
        assert forall|i: int| 0 <= i < n - 1 && s % 16 == 0 implies (#[trigger] segments@[i]).payload@.len() % 16 == 0 by {
            lemma_segment_shape(m, s, i);
            assert(segments@[i]@ == spec_segment(m, s, i));
        }
        if n > 0 {
            assert(segments@.last() == segments@[n - 1]);
        }
    }
    segments
}

/// Whether `message` needs to be cut into segments.
pub fn needs_segmentation(message: &SomeIpMessage, max_segment_payload: usize) -> (r: bool)
    ensures
        r == (message.payload@.len() > max_segment_payload),
{
    message.payload.len() > max_segment_payload
}

/// Segmenter law: every segment but the last carries exactly
/// `max_segment_payload` bytes, a positive multiple of 16 when the maximum is
/// one; the last carries between 1 and the maximum; only the last has the
/// more-segments flag clear.
pub proof fn lemma_segment_shape(m: (SomeIpHeader, Seq<u8>), s: int, i: int)
    requires
        s > 0,
        0 <= i < segment_count(m.1.len() as int, s),
    ensures
        ({
            let n = segment_count(m.1.len() as int, s);
            let seg = spec_segment(m, s, i);
            &&& i < n - 1 ==> seg.2.len() == s && seg.2.len() > 0
            &&& i < n - 1 && s % 16 == 0 ==> seg.2.len() % 16 == 0
            &&& i < n - 1 ==> seg.1.more
            &&& i == n - 1 ==> !seg.1.more && 0 < seg.2.len() <= s
            &&& 0 <= i * s < m.1.len()
            &&& seg.2.len() == segment_len(m.1.len() as int, s, i)
            &&& seg.2 == m.1.subrange(i * s, i * s + seg.2.len())
            &&& 0 < seg.2.len() <= s
        }),
{
    let len = m.1.len() as int;
    let n = segment_count(len, s);
    assert(len > s);
    vstd::arithmetic::div_mod::lemma_fundamental_div_mod(len + s - 1, s);
    let q = (len + s - 1) / s;
    let r = (len + s - 1) % s;
    assert(n == q);
    assert(0 <= r < s);
    assert((n - 1) * s < len <= n * s) by (nonlinear_arith)
        requires
            len + s - 1 == s * n + r,
            0 <= r < s,
    ;
    assert(0 <= i * s <= (n - 1) * s) by (nonlinear_arith)
        requires
            0 <= i <= n - 1,
            s > 0,
    ;
    if i < n - 1 {
        assert((i + 1) * s <= (n - 1) * s) by (nonlinear_arith)
            requires
                i + 1 <= n - 1,
                s > 0,
        ;
        assert(i * s + s == (i + 1) * s) by (nonlinear_arith);
    } else {
        assert(i * s + s == (i + 1) * s) by (nonlinear_arith);
    }
}

} // verus!

verus! {

/// A received datagram: a segment of a large message, or a whole message.
#[derive(Debug, Clone, PartialEq, Eq)]
pub enum Datagram {
    Segment(TpSegment),
    Message(SomeIpMessage),
}

/// Decode a received datagram: a segment when its message type is a
/// segmented one, else a whole message.
pub fn decode_datagram(data: &[u8]) -> (r: Result<Datagram>)
    ensures
        SomeIpHeader::parse(data@) matches Err(e) ==> r == Err::<Datagram, SomeIpError>(e),
        SomeIpHeader::parse(data@) matches Ok(h) ==> (!h.message_type.spec_is_tp() ==> match r {
            Ok(Datagram::Message(m)) => crate::message::parse_message(data@) == Ok::<(SomeIpHeader, Seq<u8>), SomeIpError>(m@),
            Ok(Datagram::Segment(_)) => false,
            Err(e) => crate::message::parse_message(data@) == Err::<(SomeIpHeader, Seq<u8>), SomeIpError>(e),
        }),
        SomeIpHeader::parse(data@) matches Ok(h) ==> (h.message_type.spec_is_tp() ==> match r {
            Ok(Datagram::Segment(s)) => s.header == h && data@.len() == 8 + h.length && s.header.length == 12
                + s.payload@.len() && s.payload@ == data@.subrange(20, data@.len() as int),
            Ok(Datagram::Message(_)) => false,
            Err(_) => data@.len() < 20 || data@.len() != 8 + h.length || h.length < 12,
        }),
{
    let header = match SomeIpHeader::from_bytes(data) {
        Ok(h) => h,
        Err(e) => return Err(e),
    };
    if header.message_type.is_tp() {
        match TpSegment::from_bytes(data) {
            Ok(s) => Ok(Datagram::Segment(s)),
            Err(e) => Err(e),
        }
    } else {
        match SomeIpMessage::from_bytes(data) {
            Ok(m) => Ok(Datagram::Message(m)),
            Err(e) => Err(e),
        }
    }
}

} // verus!
