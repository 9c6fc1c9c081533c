//! Stream framing: accumulate bytes and cut whole messages out of them.
use vstd::prelude::*;
use crate::error::{Result, SomeIpError};
use crate::header::{SomeIpHeader, HEADER_SIZE};
use crate::message::{message_bytes, SomeIpMessage};

verus! {

/// The number of bytes that the frame announced by header `h` occupies.
pub open spec fn frame_size(h: SomeIpHeader) -> int {
    HEADER_SIZE + h.spec_payload_length()
}

/// The first frame of the byte stream `b`: `Ok(None)` while `b` holds fewer
/// than 16 bytes, or fewer than the whole frame its header announces; the
/// header's decode error if it has one; else the message.
pub open spec fn next_frame(b: Seq<u8>) -> Result<Option<(SomeIpHeader, Seq<u8>)>> {
    if b.len() < HEADER_SIZE {
        Ok(None)
    } else {
        match SomeIpHeader::parse(b) {
            Err(e) => Err(e),
            Ok(h) => if b.len() < frame_size(h) {
                Ok(None)
            } else {
                Ok(Some((h, b.subrange(HEADER_SIZE as int, frame_size(h)))))
            },
        }
    }
}

/// The bytes of `b` left once its first frame, if whole, is taken.
pub open spec fn after_frame(b: Seq<u8>) -> Seq<u8> {
    match next_frame(b) {
        Ok(Some(m)) => b.subrange(frame_size(m.0), b.len() as int),
        _ => b,
    }
}

/// Every whole frame of `b` in order, and what is left after them; stops at
/// the first decode error, which it reports.
pub open spec fn all_frames(b: Seq<u8>) -> (Result<Seq<(SomeIpHeader, Seq<u8>)>>, Seq<u8>)
    decreases b.len(),
{
    match next_frame(b) {
        Err(e) => (Err(e), b),
        Ok(None) => (Ok(Seq::empty()), b),
        Ok(Some(m)) => if frame_size(m.0) > 0 && frame_size(m.0) <= b.len() {
            let rest = all_frames(b.subrange(frame_size(m.0), b.len() as int));
            match rest.0 {
                Ok(ms) => (Ok(seq![m] + ms), rest.1),
                Err(e) => (Err(e), rest.1),
            }
        } else {
            (Ok(Seq::empty()), b)
        },
    }
}

pub proof fn lemma_next_frame_size(b: Seq<u8>)
    ensures
        next_frame(b) matches Ok(Some(m)) ==> HEADER_SIZE <= frame_size(m.0) <= b.len(),
{
}

/// A decoded frame, seen through its view.
pub open spec fn frame_result_view(r: Result<Option<SomeIpMessage>>) -> Result<Option<(SomeIpHeader, Seq<u8>)>> {
    match r {
        Ok(Some(m)) => Ok(Some(m@)),
        Ok(None) => Ok(None),
        Err(e) => Err(e),
    }
}

/// A buffered reader that cuts SOME/IP messages out of a byte stream.
#[derive(Debug)]
pub struct MessageReader {
    buffer: Vec<u8>,
    position: usize,
}

impl View for MessageReader {
    type V = Seq<u8>;

    /// The bytes fed and not yet consumed.
    closed spec fn view(&self) -> Seq<u8> {
        self.buffer@.subrange(self.position as int, self.buffer@.len() as int)
    }
}

impl MessageReader {
    /// The read position lies within the buffer.
    pub closed spec fn wf(&self) -> bool {
        self.position <= self.buffer@.len()
    }

    /// Create an empty reader.
    pub fn new() -> (r: MessageReader)
        ensures
            r.wf(),
            r@ == Seq::<u8>::empty(),
    {
        let r = MessageReader { buffer: Vec::with_capacity(4096), position: 0 };
        assert(r@ =~= Seq::<u8>::empty());
        r
    }

    /// Create an empty reader with the given buffer capacity.
    pub fn with_capacity(capacity: usize) -> (r: MessageReader)
        ensures
            r.wf(),
            r@ == Seq::<u8>::empty(),
    {
        let r = MessageReader { buffer: Vec::with_capacity(capacity), position: 0 };
        assert(r@ =~= Seq::<u8>::empty());
        r
    }

    /// Append bytes to the stream.
    pub fn feed(&mut self, data: &[u8])
        requires
            old(self).wf(),
        ensures
            final(self).wf(),
            final(self)@ == old(self)@ + data@,
    {
        self.buffer.extend_from_slice(data);
        assert(self@ =~= old(self)@ + data@);
    }

    /// Take the next whole message off the stream, if there is one.
    pub fn try_parse(&mut self) -> (r: Result<Option<SomeIpMessage>>)
        requires
            old(self).wf(),
        ensures
            final(self).wf(),
            frame_result_view(r) == next_frame(old(self)@),
            final(self)@ == after_frame(old(self)@),
    {
        let available = self.buffer.len() - self.position;
        if available < HEADER_SIZE {
            return Ok(None);
        }
        let ghost b = self@;
        let header_data = vstd::slice::slice_subrange(
            self.buffer.as_slice(),
            self.position,
            self.position + HEADER_SIZE,
        );
        let header = match SomeIpHeader::from_bytes(header_data) {
            Ok(h) => h,
            Err(e) => {
                proof {
                    assert(header_data@ =~= b.subrange(0, 16));
                    lemma_parse_prefix(b);
                }
                return Err(e);
            },
        };
        proof {
            assert(header_data@ =~= b.subrange(0, 16));
            lemma_parse_prefix(b);
        }
        let payload_len = header.payload_length() as usize;
        if available - HEADER_SIZE < payload_len {
            return Ok(None);
        }
        let total_len = HEADER_SIZE + payload_len;
        let message_data = vstd::slice::slice_subrange(
            self.buffer.as_slice(),
            self.position,
            self.position + total_len,
        );
        proof {
            assert(message_data@ =~= b.subrange(0, total_len as int));
            assert(message_data@.subrange(0, 16) =~= b.subrange(0, 16));
            lemma_parse_prefix(message_data@);
            assert(message_data@.subrange(16, total_len as int) =~= b.subrange(16, total_len as int));
        }
        let message = match SomeIpMessage::from_bytes(message_data) {
            Ok(m) => m,
            Err(e) => return Err(e),
        };
        self.position = self.position + total_len;
        assert(self@ =~= b.subrange(total_len as int, b.len() as int));
        if self.position > self.buffer.len() / 2 {
            self.compact();
        }
        Ok(Some(message))
    }

    /// Take every whole message off the stream.
    pub fn parse_all(&mut self) -> (r: Result<Vec<SomeIpMessage>>)
        requires
            old(self).wf(),
        ensures
            final(self).wf(),
            match r {
                Ok(v) => all_frames(old(self)@).0 == Ok::<Seq<(SomeIpHeader, Seq<u8>)>, SomeIpError>(
                    v@.map_values(|m: SomeIpMessage| m@),
                ),
                Err(e) => all_frames(old(self)@).0 == Err::<Seq<(SomeIpHeader, Seq<u8>)>, SomeIpError>(e),
            },
            final(self)@ == all_frames(old(self)@).1,
    {
        let mut messages: Vec<SomeIpMessage> = Vec::new();
        loop
            invariant
                self.wf(),
                ({
                    let whole = all_frames(old(self)@);
                    let here = all_frames(self@);
                    &&& here.1 == whole.1
                    &&& match here.0 {
                        Ok(ms) => whole.0 == Ok::<Seq<(SomeIpHeader, Seq<u8>)>, SomeIpError>(
                            messages@.map_values(|m: SomeIpMessage| m@) + ms,
                        ),
                        Err(e) => whole.0 == Err::<Seq<(SomeIpHeader, Seq<u8>)>, SomeIpError>(e),
                    }
                }),
            decreases self@.len(),
        {
            let ghost before = self@;
            proof {
                lemma_next_frame_size(before);
            }
            match self.try_parse() {
                Ok(Some(msg)) => {
                    proof {
                        assert(messages@.map_values(|m: SomeIpMessage| m@).push(msg@) =~= messages@.push(
                            msg,
                        ).map_values(|m: SomeIpMessage| m@));
                        let here = all_frames(self@);
                        match here.0 {
                            Ok(ms) => {
                                assert(messages@.map_values(|m: SomeIpMessage| m@) + (seq![msg@] + ms)
                                    =~= messages@.push(msg).map_values(|m: SomeIpMessage| m@) + ms);
                            },
                            Err(e) => {},
                        }
                    }
                    messages.push(msg);
                },
                Ok(None) => {
                    assert(messages@.map_values(|m: SomeIpMessage| m@) + Seq::empty() =~= messages@.map_values(
                        |m: SomeIpMessage| m@,
                    ));
                    return Ok(messages);
                },
                Err(e) => {
                    return Err(e);
                },
            }
        }
    }

    /// Drop the consumed bytes from the buffer.
    fn compact(&mut self)
        requires
            old(self).wf(),
        ensures
            final(self).wf(),
            final(self)@ == old(self)@,
    {
        if self.position > 0 {
            let rest = vstd::slice::slice_to_vec(
                vstd::slice::slice_subrange(self.buffer.as_slice(), self.position, self.buffer.len()),
            );
            self.buffer = rest;
            self.position = 0;
            assert(self@ =~= old(self)@);
        }
    }

    /// Discard all buffered bytes.
    pub fn clear(&mut self)
        requires
            old(self).wf(),
        ensures
            final(self).wf(),
            final(self)@ == Seq::<u8>::empty(),
    {
        self.buffer.clear();
        self.position = 0;
        assert(self@ =~= Seq::<u8>::empty());
    }

    /// The number of bytes fed and not yet consumed.
    pub fn len(&self) -> (r: usize)
        requires
            self.wf(),
        ensures
            r == self@.len(),
    {
        self.buffer.len() - self.position
    }

    /// Whether no unconsumed bytes remain.
    pub fn is_empty(&self) -> (r: bool)
        requires
            self.wf(),
        ensures
            r == (self@.len() == 0),
    {
        self.len() == 0
    }
}

impl Default for MessageReader {
    fn default() -> (r: MessageReader)
        ensures
            r.wf(),
            r@ == Seq::<u8>::empty(),
    {
        MessageReader::new()
    }
}

/// Decoding a header looks at the first 16 bytes only.
pub proof fn lemma_parse_prefix(b: Seq<u8>)
    requires
        b.len() >= HEADER_SIZE,
    ensures
        SomeIpHeader::parse(b.subrange(0, 16)) == SomeIpHeader::parse(b),
{
    let p = b.subrange(0, 16);
    assert(p[0] == b[0] && p[1] == b[1] && p[2] == b[2] && p[3] == b[3]);
    assert(p[4] == b[4] && p[5] == b[5] && p[6] == b[6] && p[7] == b[7]);
    assert(p[8] == b[8] && p[9] == b[9] && p[10] == b[10] && p[11] == b[11]);
    assert(p[12] == b[12] && p[13] == b[13] && p[14] == b[14] && p[15] == b[15]);
}


/// A whole frame, or a decode error, at the front of a stream stays the same
/// when more bytes arrive behind it.
pub proof fn lemma_next_frame_extend(a: Seq<u8>, c: Seq<u8>)
    ensures
        next_frame(a) is Ok && next_frame(a)->Ok_0 is Some ==> next_frame(a + c) == next_frame(a),
        next_frame(a) is Err ==> next_frame(a + c) == next_frame(a),
{
    if a.len() >= HEADER_SIZE {
        let ac = a + c;
        lemma_parse_prefix(a);
        lemma_parse_prefix(ac);
        assert(a.subrange(0, 16) =~= ac.subrange(0, 16));
        match SomeIpHeader::parse(a) {
            Ok(h) => {
                if a.len() >= frame_size(h) {
                    assert(a.subrange(HEADER_SIZE as int, frame_size(h)) =~= ac.subrange(
                        HEADER_SIZE as int,
                        frame_size(h),
                    ));
                }
            },
            Err(e) => {},
        }
    }
}

/// Split feeding: taking every whole message from `a`, then feeding `c` behind
/// what was left and taking every whole message again, yields the same
/// messages in the same order, the same error if any, and leaves the same
/// bytes as taking every whole message from `a + c` at once. By induction this
/// holds for a stream cut at any number of places, down to single bytes.
pub proof fn lemma_split_feed(a: Seq<u8>, c: Seq<u8>)
    requires
        all_frames(a).0 is Ok,
    ensures
        ({
            let ms = all_frames(a).0->Ok_0;
            let second = all_frames(all_frames(a).1 + c);
            &&& all_frames(a + c).1 == second.1
            &&& all_frames(a + c).0 == match second.0 {
                Ok(ms2) => Ok::<Seq<(SomeIpHeader, Seq<u8>)>, SomeIpError>(ms + ms2),
                Err(e) => Err::<Seq<(SomeIpHeader, Seq<u8>)>, SomeIpError>(e),
            }
        }),
    decreases a.len(),
{
    lemma_next_frame_size(a);
    match next_frame(a) {
        Err(e) => {},
        Ok(None) => {
            match all_frames(a + c).0 {
                Ok(ms2) => {
                    assert(Seq::<(SomeIpHeader, Seq<u8>)>::empty() + ms2 =~= ms2);
                },
                Err(e) => {},
            }
        },
        Ok(Some(m)) => {
            let k = frame_size(m.0);
            lemma_next_frame_extend(a, c);
            let a2 = a.subrange(k, a.len() as int);
            assert((a + c).subrange(k, (a + c).len() as int) =~= a2 + c);
            lemma_split_feed(a2, c);
            let ms1 = all_frames(a2).0->Ok_0;
            match all_frames(all_frames(a2).1 + c).0 {
                Ok(ms2) => {
                    assert(seq![m] + (ms1 + ms2) =~= (seq![m] + ms1) + ms2);
                },
                Err(e) => {},
            }
        },
    }
}

/// A decode error at the front of a stream stays the first outcome when more
/// bytes arrive behind it.
proof fn lemma_all_frames_error_extend(a: Seq<u8>, c: Seq<u8>)
    requires
        all_frames(a).0 is Err,
    ensures
        all_frames(a + c).0 == all_frames(a).0,
    decreases a.len(),
{
    lemma_next_frame_size(a);
    lemma_next_frame_extend(a, c);
    match next_frame(a) {
        Err(e) => {},
        Ok(None) => {},
        Ok(Some(m)) => {
            let k = frame_size(m.0);
            let a2 = a.subrange(k, a.len() as int);
            assert((a + c).subrange(k, (a + c).len() as int) =~= a2 + c);
            lemma_all_frames_error_extend(a2, c);
        },
    }
}

/// What is left once every whole frame is taken holds no whole frame and no
/// decode error.
proof fn lemma_all_frames_rest(b: Seq<u8>)
    requires
        all_frames(b).0 is Ok,
    ensures
        all_frames(all_frames(b).1) == (Ok::<Seq<(SomeIpHeader, Seq<u8>)>, SomeIpError>(Seq::empty()), all_frames(b).1),
    decreases b.len(),
{
    lemma_next_frame_size(b);
    match next_frame(b) {
        Err(e) => {},
        Ok(None) => {},
        Ok(Some(m)) => {
            let k = frame_size(m.0);
            lemma_all_frames_rest(b.subrange(k, b.len() as int));
        },
    }
}

/// The chunks of a stream, joined.
pub open spec fn joined(chunks: Seq<Seq<u8>>) -> Seq<u8>
    decreases chunks.len(),
{
    if chunks.len() == 0 {
        Seq::empty()
    } else {
        chunks[0] + joined(chunks.drop_first())
    }
}

/// Feeding `chunks` one at a time to a reader that holds `buf`, taking every
/// whole message after each: the messages taken, or the first decode error,
/// and what is left.
pub open spec fn fed_in_chunks(buf: Seq<u8>, chunks: Seq<Seq<u8>>) -> (Result<Seq<(SomeIpHeader, Seq<u8>)>>, Seq<u8>)
    decreases chunks.len(),
{
    if chunks.len() == 0 {
        (Ok(Seq::empty()), buf)
    } else {
        let first = all_frames(buf + chunks[0]);
        match first.0 {
            Err(e) => (Err(e), first.1),
            Ok(ms) => {
                let rest = fed_in_chunks(first.1, chunks.drop_first());
                match rest.0 {
                    Ok(ms2) => (Ok(ms + ms2), rest.1),
                    Err(e) => (Err(e), rest.1),
                }
            },
        }
    }
}

proof fn lemma_fed_in_chunks(buf: Seq<u8>, chunks: Seq<Seq<u8>>)
    requires
        all_frames(buf) == (Ok::<Seq<(SomeIpHeader, Seq<u8>)>, SomeIpError>(Seq::empty()), buf),
    ensures
        fed_in_chunks(buf, chunks).0 == all_frames(buf + joined(chunks)).0,
        fed_in_chunks(buf, chunks).0 is Ok ==> fed_in_chunks(buf, chunks).1 == all_frames(buf + joined(chunks)).1,
    decreases chunks.len(),
{
    if chunks.len() == 0 {
        assert(buf + joined(chunks) =~= buf);
    } else {
        let c0 = chunks[0];
        let tail = chunks.drop_first();
        let a = buf + c0;
        assert(buf + joined(chunks) =~= a + joined(tail));
        let first = all_frames(a);
        match first.0 {
            Err(e) => {
                lemma_all_frames_error_extend(a, joined(tail));
            },
            Ok(ms) => {
                lemma_all_frames_rest(a);
                lemma_fed_in_chunks(first.1, tail);
                lemma_split_feed(a, joined(tail));
                match all_frames(first.1 + joined(tail)).0 {
                    Ok(ms2) => {},
                    Err(e) => {},
                }
            },
        }
    }
}

/// Framing law: feeding a stream to a fresh reader in any chunks (single
/// bytes included), taking every whole message after each chunk as
/// `parse_all` does, yields the same messages in the same order, the same
/// first error if any, and leaves the same bytes, as feeding it whole.
pub proof fn lemma_chunked_feed(chunks: Seq<Seq<u8>>)
    ensures
        fed_in_chunks(Seq::empty(), chunks).0 == all_frames(joined(chunks)).0,
        fed_in_chunks(Seq::empty(), chunks).0 is Ok ==> fed_in_chunks(Seq::empty(), chunks).1 == all_frames(
            joined(chunks),
        ).1,
{
    let e = Seq::<u8>::empty();
    assert(next_frame(e) == Ok::<Option<(SomeIpHeader, Seq<u8>)>, SomeIpError>(None));
    assert(all_frames(e) == (Ok::<Seq<(SomeIpHeader, Seq<u8>)>, SomeIpError>(Seq::empty()), e));
    lemma_fed_in_chunks(e, chunks);
    assert(e + joined(chunks) =~= joined(chunks));
}

/// A writer that frames SOME/IP messages into a byte buffer.
#[derive(Debug)]
pub struct MessageWriter {
    buffer: Vec<u8>,
}

impl View for MessageWriter {
    type V = Seq<u8>;

    closed spec fn view(&self) -> Seq<u8> {
        self.buffer@
    }
}

impl MessageWriter {
    /// Create an empty writer.
    pub fn new() -> (r: MessageWriter)
        ensures
            r@ == Seq::<u8>::empty(),
    {
        MessageWriter { buffer: Vec::with_capacity(4096) }
    }

    /// Append the wire bytes of `message`.
    pub fn encode(&mut self, message: &SomeIpMessage)
        ensures
            final(self)@ == old(self)@ + message_bytes(message@),
    {
        message.write_to(&mut self.buffer);
    }

    /// The encoded bytes.
    pub fn data(&self) -> (r: &[u8])
        ensures
            r@ == self@,
    {
        self.buffer.as_slice()
    }

    /// Take the encoded bytes, leaving the writer empty.
    pub fn take(&mut self) -> (r: Vec<u8>)
        ensures
            r@ == old(self)@,
            final(self)@ == Seq::<u8>::empty(),
    {
        let mut out: Vec<u8> = Vec::new();
        core::mem::swap(&mut out, &mut self.buffer);
        out
    }

    /// Discard the encoded bytes.
    pub fn clear(&mut self)
        ensures
            final(self)@ == Seq::<u8>::empty(),
    {
        self.buffer.clear();
    }
}

impl Default for MessageWriter {
    fn default() -> (r: MessageWriter)
        ensures
            r@ == Seq::<u8>::empty(),
    {
        MessageWriter::new()
    }
}

} // verus!
