//! Session numbering: a 16-bit counter that never hands out 0.
use vstd::prelude::*;
use crate::header::SessionId;

verus! {

/// The session ID handed out from counter value `c`, and the next counter value.
pub open spec fn session_step(c: u16) -> (u16, u16) {
    if c == 0 {
        (1, 2)
    } else {
        (c, if c == 0xFFFF { 0 } else { (c + 1) as u16 })
    }
}

/// The first `n` session IDs handed out from counter value `c`.
pub open spec fn session_sequence(c: u16, n: nat) -> Seq<u16>
    decreases n,
{
    if n == 0 {
        Seq::empty()
    } else {
        seq![session_step(c).0] + session_sequence(session_step(c).1, (n - 1) as nat)
    }
}

/// A per-client session counter.
#[derive(Debug)]
pub struct SessionCounter {
    next: u16,
}

impl View for SessionCounter {
    type V = u16;

    closed spec fn view(&self) -> u16 {
        self.next
    }
}

impl SessionCounter {
    /// A counter whose first session ID is 1.
    pub fn new() -> (r: SessionCounter)
        ensures
            r@ == 1,
    {
        SessionCounter { next: 1 }
    }

    /// Hand out the next session ID: the counter value, wrapping past 0xFFFF;
    /// when that value is 0, hand out 1 and continue from 2.
    pub fn next_session_id(&mut self) -> (r: SessionId)
        ensures
            r.0 == session_step(old(self)@).0,
            final(self)@ == session_step(old(self)@).1,
            r.0 != 0,
    {
        let id = self.next;
        self.next = id.wrapping_add(1);
        if id == 0 {
            self.next = 2;
            SessionId(1)
        } else {
            SessionId(id)
        }
    }
}

/// Session law: from any counter value (1 at the start), `n` session IDs are
/// handed out and none of them is 0.
pub proof fn lemma_sessions_nonzero(c: u16, n: nat)
    ensures
        session_sequence(c, n).len() == n,
        forall|i: int| 0 <= i < n ==> #[trigger] session_sequence(c, n)[i] != 0,
    decreases n,
{
    if n > 0 {
        let (first, next) = session_step(c);
        lemma_sessions_nonzero(next, (n - 1) as nat);
        let s = session_sequence(c, n);
        let rest = session_sequence(next, (n - 1) as nat);
        assert forall|i: int| 0 <= i < n implies #[trigger] s[i] != 0 by {
            if i > 0 {
                assert(s[i] == rest[i - 1]);
            }
        }
    }
}

} // verus!

verus! {

/// Session law, closed form: from counter value `c` (1 for a fresh counter;
/// 0 counts as 1), the `k`-th session ID handed out is
/// `((c - 1 + k) mod 0xFFFF) + 1`. So a fresh counter hands out 1, 2, ...,
/// 0xFFFF, then 1 again, and never 0.
pub proof fn lemma_session_sequence_closed(c: u16, n: nat)
    ensures
        forall|k: int|
            0 <= k < n ==> #[trigger] session_sequence(c, n)[k] as int == ((if c == 0 { 1int } else { c as int }) - 1 + k)
                % 0xFFFF + 1,
    decreases n,
{
    if n > 0 {
        let (first, next) = session_step(c);
        lemma_session_sequence_closed(next, (n - 1) as nat);
        lemma_sessions_nonzero(c, n);
        let s = session_sequence(c, n);
        let rest = session_sequence(next, (n - 1) as nat);
        let nc: int = if c == 0 { 1 } else { c as int };
        let nn: int = if next == 0 { 1 } else { next as int };
        assert(nn == if nc == 0xFFFF { 1 } else { nc + 1 });
        assert forall|k: int| 0 <= k < n implies #[trigger] s[k] as int == (nc - 1 + k) % 0xFFFF + 1 by {
            if k == 0 {
                assert(s[0] == first);
            } else {
                assert(s[k] == rest[k - 1]);
                assert(rest[k - 1] as int == (nn - 1 + (k - 1)) % 0xFFFF + 1);
                if nc == 0xFFFF {
                    assert((0 + (k - 1)) % 0xFFFF == (0xFFFF - 1 + k) % 0xFFFF) by (nonlinear_arith)
                        requires
                            k >= 1,
                    ;
                }
            }
        }
    }
}

} // verus!
