//! Bookkeeping of a bounded connection pool: per endpoint, the idle pooled
//! connections and the number handed out. The connections themselves are
//! named by an ID; whoever owns the sockets maps IDs to them.
use vstd::prelude::*;
use crate::connection::config::PoolConfig;
use crate::sd::option::SocketAddress;

verus! {

/// A pooled (idle) connection: its ID, when it was created and last used
/// (milliseconds).
#[derive(Debug, Clone, Copy, PartialEq, Eq, Structural)]
pub struct PooledConnection {
    pub id: u64,
    pub created_at: u64,
    pub last_used: u64,
}

/// The answer of the pool to a request for a connection.
#[derive(Debug, Clone, Copy, PartialEq, Eq, Structural)]
pub enum PoolDecision {
    /// Use this pooled connection.
    Reuse(PooledConnection),
    /// Open a new connection; it counts as handed out.
    Create,
    /// The endpoint has as many live connections as allowed.
    LimitReached,
}

/// Whether a pooled connection has expired at `now`: idle longer than the
/// idle timeout, or older than the maximum lifetime.
pub open spec fn expired(c: PooledConnection, now: u64, cfg: PoolConfig) -> bool {
    (now > c.last_used && now - c.last_used > cfg.idle_timeout) || match cfg.max_lifetime {
        Some(l) => now > c.created_at && now - c.created_at > l,
        None => false,
    }
}

/// The connections of `s` that have not expired at `now`, in order.
pub open spec fn fresh(s: Seq<PooledConnection>, now: u64, cfg: PoolConfig) -> Seq<PooledConnection>
    decreases s.len(),
{
    if s.len() == 0 {
        s
    } else if expired(s.last(), now, cfg) {
        fresh(s.drop_last(), now, cfg)
    } else {
        fresh(s.drop_last(), now, cfg).push(s.last())
    }
}

proof fn lemma_fresh_len(s: Seq<PooledConnection>, now: u64, cfg: PoolConfig)
    ensures
        fresh(s, now, cfg).len() <= s.len(),
    decreases s.len(),
{
    if s.len() > 0 {
        lemma_fresh_len(s.drop_last(), now, cfg);
    }
}

/// What the pool holds for one endpoint: its address, its idle connections,
/// and how many of its connections are handed out.
pub type EndpointView = (SocketAddress, Seq<PooledConnection>, nat);

/// The number of idle connections over all endpoints of `s`.
pub open spec fn total_idle(s: Seq<EndpointView>) -> int
    decreases s.len(),
{
    if s.len() == 0 {
        0
    } else {
        total_idle(s.drop_last()) + s.last().1.len()
    }
}

proof fn lemma_total_idle_nonneg(s: Seq<EndpointView>)
    ensures
        total_idle(s) >= 0,
    decreases s.len(),
{
    if s.len() > 0 {
        lemma_total_idle_nonneg(s.drop_last());
    }
}

/// The index of `addr` in `s`, or `s.len()` when it has none.
pub open spec fn find_addr(s: Seq<EndpointView>, addr: SocketAddress) -> int
    decreases s.len(),
{
    if s.len() == 0 {
        0
    } else if find_addr(s.drop_last(), addr) < s.len() - 1 {
        find_addr(s.drop_last(), addr)
    } else if s.last().0 == addr {
        s.len() - 1
    } else {
        s.len() as int
    }
}

proof fn lemma_find_addr(s: Seq<EndpointView>, addr: SocketAddress, i: int)
    requires
        0 <= i <= s.len(),
        forall|j: int| 0 <= j < i ==> s[j].0 != addr,
        i < s.len() ==> s[i].0 == addr,
    ensures
        find_addr(s, addr) == i,
    decreases s.len(),
{
    if s.len() > 0 {
        let t = s.drop_last();
        if i < s.len() - 1 {
            lemma_find_addr(t, addr, i);
        } else {
            lemma_find_addr(t, addr, t.len() as int);
        }
    }
}

/// The entry of `addr` in `s`, empty when it has none.
pub open spec fn entry_of(s: Seq<EndpointView>, addr: SocketAddress) -> EndpointView {
    let i = find_addr(s, addr);
    if i < s.len() {
        s[i]
    } else {
        (addr, Seq::empty(), 0)
    }
}

/// `s` with the entry of `addr` set to `e`.
pub open spec fn with_entry(s: Seq<EndpointView>, addr: SocketAddress, e: EndpointView) -> Seq<EndpointView> {
    let i = find_addr(s, addr);
    if i < s.len() {
        s.update(i, e)
    } else {
        s.push(e)
    }
}

/// The decision for a request for `addr` at `now`, and the entry after it:
/// expired idle connections are dropped; the first remaining one is reused;
/// else a new one is opened if the endpoint is below capacity.
pub open spec fn spec_get(e: EndpointView, now: u64, cfg: PoolConfig) -> (PoolDecision, EndpointView) {
    let f = fresh(e.1, now, cfg);
    if f.len() > 0 {
        (PoolDecision::Reuse(PooledConnection { last_used: now, ..f[0] }), (e.0, f.drop_first(), e.2 + 1))
    } else if e.2 < cfg.max_connections_per_endpoint {
        (PoolDecision::Create, (e.0, f, e.2 + 1))
    } else {
        (PoolDecision::LimitReached, (e.0, f, e.2))
    }
}

struct EndpointPool {
    addr: SocketAddress,
    idle: Vec<PooledConnection>,
    borrowed: usize,
}

impl EndpointPool {
    spec fn view(&self) -> EndpointView {
        (self.addr, self.idle@, self.borrowed as nat)
    }
}

/// Bookkeeping of a bounded connection pool.
pub struct ConnectionPool {
    config: PoolConfig,
    endpoints: Vec<EndpointPool>,
}

impl View for ConnectionPool {
    type V = Seq<EndpointView>;

    closed spec fn view(&self) -> Seq<EndpointView> {
        self.endpoints@.map_values(|e: EndpointPool| e.view())
    }
}

impl ConnectionPool {
    /// Endpoints are distinct, and none has more live connections (idle and
    /// handed out) than the configured maximum.
    pub closed spec fn wf(&self) -> bool {
        &&& forall|i: int, j: int|
            0 <= i < j < self.endpoints@.len() ==> self.endpoints@[i].addr != self.endpoints@[j].addr
        &&& forall|i: int|
            0 <= i < self.endpoints@.len() ==> #[trigger] self.endpoints@[i].idle@.len()
                + self.endpoints@[i].borrowed <= self.config.max_connections_per_endpoint
    }

    /// The configuration.
    pub closed spec fn spec_config(&self) -> PoolConfig {
        self.config
    }

    /// The number of live connections of `addr`: idle plus handed out.
    pub open spec fn live(&self, addr: SocketAddress) -> int {
        (entry_of(self@, addr).1.len() + entry_of(self@, addr).2) as int
    }

    /// An empty pool.
    pub fn new(config: PoolConfig) -> (r: ConnectionPool)
        ensures
            r.wf(),
            r@ == Seq::<EndpointView>::empty(),
            r.spec_config() == config,
    {
        let r = ConnectionPool { config, endpoints: Vec::new() };
        assert(r@ =~= Seq::<EndpointView>::empty());
        r
    }

    /// An empty pool with the default configuration.
    pub fn with_defaults() -> (r: ConnectionPool)
        ensures
            r.wf(),
            r@ == Seq::<EndpointView>::empty(),
            r.spec_config().max_connections_per_endpoint == 10,
    {
        Self::new(PoolConfig::default())
    }

    /// The configuration.
    pub fn config(&self) -> (r: PoolConfig)
        ensures
            r == self.spec_config(),
    {
        self.config
    }

    fn find(&self, addr: SocketAddress) -> (r: usize)
        requires
            self.wf(),
        ensures
            r == find_addr(self@, addr),
            r <= self.endpoints@.len(),
            r < self.endpoints@.len() ==> self.endpoints@[r as int].addr == addr,
            r == self.endpoints@.len() ==> forall|j: int| 0 <= j < self.endpoints@.len() ==> self.endpoints@[j].addr != addr,
    {
        let mut i: usize = 0;
        while i < self.endpoints.len() && self.endpoints[i].addr != addr
            invariant
                0 <= i <= self.endpoints@.len(),
                forall|j: int| 0 <= j < i ==> self.endpoints@[j].addr != addr,
            decreases self.endpoints@.len() - i,
        {
            i = i + 1;
        }
        proof {
            lemma_find_addr(self@, addr, i as int);
        }
        i
    }

    fn put_back(&mut self, i: usize, entry: EndpointPool, Ghost(orig): Ghost<Seq<EndpointPool>>)
        requires
            forall|a: int, b: int| 0 <= a < b < orig.len() ==> orig[a].addr != orig[b].addr,
            forall|a: int|
                0 <= a < orig.len() ==> #[trigger] orig[a].idle@.len() + orig[a].borrowed
                    <= old(self).config.max_connections_per_endpoint,
            entry.idle@.len() + entry.borrowed <= old(self).config.max_connections_per_endpoint,
            i <= orig.len(),
            i < orig.len() ==> old(self).endpoints@ == orig.remove(i as int) && orig[i as int].addr == entry.addr,
            i == orig.len() ==> old(self).endpoints@ == orig && forall|j: int|
                0 <= j < orig.len() ==> orig[j].addr != entry.addr,
        ensures
            final(self).config == old(self).config,
            final(self).wf(),
            i < orig.len() ==> final(self).endpoints@ == orig.update(i as int, entry),
            i == orig.len() ==> final(self).endpoints@ == orig.push(entry),
    {
        self.endpoints.insert(i, entry);
        proof {
            if i < orig.len() {
                assert(self.endpoints@ =~= orig.update(i as int, entry));
            } else {
                assert(self.endpoints@ =~= orig.push(entry));
            }
        }
    }

    /// Ask for a connection to `addr` at time `now` (milliseconds).
    pub fn get_at(&mut self, addr: SocketAddress, now: u64) -> (r: PoolDecision)
        requires
            old(self).wf(),
        ensures
            final(self).wf(),
            final(self).spec_config() == old(self).spec_config(),
            ({
                let (d, e) = spec_get(entry_of(old(self)@, addr), now, old(self).spec_config());
                &&& r == d
                &&& final(self)@ == with_entry(old(self)@, addr, e)
            }),
    {
        let i = self.find(addr);
        let ghost old_view = self@;
        let ghost orig = self.endpoints@;
        let mut entry = if i < self.endpoints.len() {
            self.endpoints.remove(i)
        } else {
            EndpointPool { addr, idle: Vec::new(), borrowed: 0 }
        };
        proof {
            if i < old_view.len() {
                assert(entry.view() == old_view[i as int]);
            } else {
                assert(entry.idle@ =~= Seq::<PooledConnection>::empty());
            }
        }
        let ghost e = entry.view();
        let max = self.config.max_connections_per_endpoint;
        let mut kept: Vec<PooledConnection> = Vec::new();
        let mut j: usize = 0;
        while j < entry.idle.len()
            invariant
                0 <= j <= entry.idle@.len(),
                entry.view() == e,
                kept@ == fresh(e.1.subrange(0, j as int), now, self.config),
            decreases entry.idle@.len() - j,
        {
            let c = entry.idle[j];
            proof {
                assert(e.1.subrange(0, j + 1).drop_last() =~= e.1.subrange(0, j as int));
            }
            let lifetime_out = match self.config.max_lifetime {
                Some(l) => now > c.created_at && now - c.created_at > l,
                None => false,
            };
            let gone = (now > c.last_used && now - c.last_used > self.config.idle_timeout) || lifetime_out;
            if !gone {
                kept.push(c);
            }
            j = j + 1;
        }
        proof {
            assert(e.1.subrange(0, e.1.len() as int) =~= e.1);
            lemma_fresh_len(e.1, now, self.config);
        }
        let decision;
        if kept.len() > 0 {
            let c = kept.remove(0);
            decision = PoolDecision::Reuse(PooledConnection { last_used: now, ..c });
            entry.borrowed = entry.borrowed + 1;
        } else if entry.borrowed < max {
            decision = PoolDecision::Create;
            entry.borrowed = entry.borrowed + 1;
        } else {
            decision = PoolDecision::LimitReached;
        }
        entry.idle = kept;
        self.put_back(i, entry, Ghost(orig));
        proof {
            let s2 = self@;
            if i < old_view.len() {
                assert(s2 =~= old_view.update(i as int, entry.view()));
            } else {
                assert(s2 =~= old_view.push(entry.view()));
            }
        }
        decision
    }

    /// Take back a connection to `addr` at time `now`. It is pooled while the
    /// endpoint stays within capacity, else dropped; returns whether it was pooled.
    pub fn return_connection(&mut self, addr: SocketAddress, conn: PooledConnection, now: u64) -> (r: bool)
        requires
            old(self).wf(),
        ensures
            final(self).wf(),
            final(self).spec_config() == old(self).spec_config(),
            ({
                let e = entry_of(old(self)@, addr);
                let b: nat = if e.2 > 0 { (e.2 - 1) as nat } else { 0 };
                &&& r == (e.1.len() + b < old(self).spec_config().max_connections_per_endpoint)
                &&& final(self)@ == with_entry(
                    old(self)@,
                    addr,
                    (addr, if r { e.1.push(PooledConnection { last_used: now, ..conn }) } else { e.1 }, b),
                )
            }),
    {
        let i = self.find(addr);
        let ghost old_view = self@;
        let ghost orig = self.endpoints@;
        let mut entry = if i < self.endpoints.len() {
            self.endpoints.remove(i)
        } else {
            EndpointPool { addr, idle: Vec::new(), borrowed: 0 }
        };
        proof {
            if i < old_view.len() {
                assert(entry.view() == old_view[i as int]);
            } else {
                assert(entry.idle@ =~= Seq::<PooledConnection>::empty());
            }
        }
        if entry.borrowed > 0 {
            entry.borrowed = entry.borrowed - 1;
        }
        let keep = entry.idle.len() < self.config.max_connections_per_endpoint - entry.borrowed;
        if keep {
            entry.idle.push(PooledConnection { last_used: now, ..conn });
        }
        self.put_back(i, entry, Ghost(orig));
        proof {
            let s2 = self@;
            if i < old_view.len() {
                assert(s2 =~= old_view.update(i as int, entry.view()));
            } else {
                assert(s2 =~= old_view.push(entry.view()));
            }
        }
        keep
    }

    /// Forget a handed-out connection to `addr` that will not come back (it
    /// failed to open, or broke).
    pub fn discard(&mut self, addr: SocketAddress)
        requires
            old(self).wf(),
        ensures
            final(self).wf(),
            final(self).spec_config() == old(self).spec_config(),
            ({
                let e = entry_of(old(self)@, addr);
                final(self)@ == with_entry(old(self)@, addr, (addr, e.1, if e.2 > 0 { (e.2 - 1) as nat } else { 0 }))
            }),
    {
        let i = self.find(addr);
        let ghost old_view = self@;
        let ghost orig = self.endpoints@;
        let mut entry = if i < self.endpoints.len() {
            self.endpoints.remove(i)
        } else {
            EndpointPool { addr, idle: Vec::new(), borrowed: 0 }
        };
        proof {
            if i < old_view.len() {
                assert(entry.view() == old_view[i as int]);
            } else {
                assert(entry.idle@ =~= Seq::<PooledConnection>::empty());
            }
        }
        if entry.borrowed > 0 {
            entry.borrowed = entry.borrowed - 1;
        }
        self.put_back(i, entry, Ghost(orig));
        proof {
            let s2 = self@;
            if i < old_view.len() {
                assert(s2 =~= old_view.update(i as int, entry.view()));
            } else {
                assert(s2 =~= old_view.push(entry.view()));
            }
        }
    }

    /// The number of idle pooled connections of `addr`.
    pub fn connection_count(&self, addr: SocketAddress) -> (r: usize)
        requires
            self.wf(),
        ensures
            r == entry_of(self@, addr).1.len(),
    {
        let i = self.find(addr);
        if i < self.endpoints.len() {
            self.endpoints[i].idle.len()
        } else {
            0
        }
    }

    /// The number of idle pooled connections over all endpoints (saturating).
    pub fn total_connections(&self) -> (r: usize)
        ensures
            r == if total_idle(self@) <= usize::MAX { total_idle(self@) as usize } else { usize::MAX },
    {
        let ghost s = self@;
        let mut total: usize = 0;
        let mut i: usize = 0;
        while i < self.endpoints.len()
            invariant
                0 <= i <= self.endpoints@.len(),
                s == self@,
                total == if total_idle(s.subrange(0, i as int)) <= usize::MAX {
                    total_idle(s.subrange(0, i as int)) as usize
                } else {
                    usize::MAX
                },
            decreases self.endpoints@.len() - i,
        {
            proof {
                assert(s.subrange(0, i + 1).drop_last() =~= s.subrange(0, i as int));
                assert(s[i as int].1.len() == self.endpoints@[i as int].idle@.len());
                lemma_total_idle_nonneg(s.subrange(0, i as int));
            }
            total = total.saturating_add(self.endpoints[i].idle.len());
            i = i + 1;
        }
        assert(s.subrange(0, s.len() as int) =~= s);
        total
    }

    /// Drop every expired idle connection at `now`; return how many went.
    pub fn cleanup_at(&mut self, now: u64) -> (r: usize)
        requires
            old(self).wf(),
        ensures
            final(self).wf(),
            final(self).spec_config() == old(self).spec_config(),
            final(self)@.len() == old(self)@.len(),
            forall|k: int|
                0 <= k < old(self)@.len() ==> (#[trigger] final(self)@[k]) == (
                    old(self)@[k].0,
                    fresh(old(self)@[k].1, now, old(self).spec_config()),
                    old(self)@[k].2,
                ),
            r == if total_idle(old(self)@) - total_idle(final(self)@) <= usize::MAX {
                (total_idle(old(self)@) - total_idle(final(self)@)) as usize
            } else {
                usize::MAX
            },
    {
        let ghost old_view = self@;
        let ghost cfg = self.config;
        let mut removed: usize = 0;
        let mut i: usize = 0;
        while i < self.endpoints.len()
            invariant
                0 <= i <= self.endpoints@.len(),
                self.wf(),
                self.config == cfg,
                self@.len() == old_view.len(),
                forall|k: int|
                    0 <= k < i ==> (#[trigger] self@[k]) == (old_view[k].0, fresh(old_view[k].1, now, cfg), old_view[k].2),
                forall|k: int| i <= k < self@.len() ==> (#[trigger] self@[k]) == old_view[k],
                total_idle(old_view.subrange(0, i as int)) >= total_idle(self@.subrange(0, i as int)),
                removed == if total_idle(old_view.subrange(0, i as int)) - total_idle(self@.subrange(0, i as int))
                    <= usize::MAX {
                    (total_idle(old_view.subrange(0, i as int)) - total_idle(self@.subrange(0, i as int))) as usize
                } else {
                    usize::MAX
                },
            decreases self.endpoints@.len() - i,
        {
            let ghost before = self@;
            let ghost eps = self.endpoints@;
            let mut entry = self.endpoints.remove(i);
            let ghost e = entry.view();
            assert(entry == eps[i as int]);
            assert(before[i as int] == eps[i as int].view());
            assert(e == old_view[i as int]);
            let mut kept: Vec<PooledConnection> = Vec::new();
            let mut j: usize = 0;
            while j < entry.idle.len()
                invariant
                    0 <= j <= entry.idle@.len(),
                    entry.view() == e,
                    kept@ == fresh(e.1.subrange(0, j as int), now, cfg),
                    self.config == cfg,
                decreases entry.idle@.len() - j,
            {
                let c = entry.idle[j];
                proof {
                    assert(e.1.subrange(0, j + 1).drop_last() =~= e.1.subrange(0, j as int));
                }
                let lifetime_out = match self.config.max_lifetime {
                    Some(l) => now > c.created_at && now - c.created_at > l,
                    None => false,
                };
                let gone = (now > c.last_used && now - c.last_used > self.config.idle_timeout) || lifetime_out;
                if !gone {
                    kept.push(c);
                }
                j = j + 1;
            }
            proof {
                assert(e.1.subrange(0, e.1.len() as int) =~= e.1);
                lemma_fresh_len(e.1, now, cfg);
            }
            removed = removed.saturating_add(entry.idle.len() - kept.len());
            entry.idle = kept;
            self.put_back(i, entry, Ghost(eps));
            proof {
                assert(self@ =~= before.update(i as int, entry.view()));
                assert(self@.subrange(0, i + 1).drop_last() =~= before.subrange(0, i as int));
                assert(old_view.subrange(0, i + 1).drop_last() =~= old_view.subrange(0, i as int));
            }
            i = i + 1;
        }
        assert(self@.subrange(0, i as int) =~= self@);
        assert(old_view.subrange(0, i as int) =~= old_view);
        removed
    }

    /// Whether an idle pooled connection has ID `id`.
    pub fn holds(&self, id: u64) -> (r: bool)
        ensures
            r == exists|i: int, j: int| 0 <= i < self@.len() && 0 <= j < self@[i].1.len() && #[trigger] self@[i].1[j].id == id,
    {
        let mut i: usize = 0;
        while i < self.endpoints.len()
            invariant
                0 <= i <= self.endpoints@.len(),
                forall|a: int, b: int| 0 <= a < i && 0 <= b < self@[a].1.len() ==> #[trigger] self@[a].1[b].id != id,
            decreases self.endpoints@.len() - i,
        {
            let idle = &self.endpoints[i].idle;
            let mut j: usize = 0;
            while j < idle.len()
                invariant
                    0 <= j <= idle@.len(),
                    i < self.endpoints@.len(),
                    idle@ == self@[i as int].1,
                    forall|b: int| 0 <= b < j ==> #[trigger] idle@[b].id != id,
                decreases idle@.len() - j,
            {
                if idle[j].id == id {
                    assert(self@[i as int].1[j as int].id == id);
                    return true;
                }
                j = j + 1;
            }
            i = i + 1;
        }
        false
    }

    /// Drop every endpoint and its pooled connections.
    pub fn clear(&mut self)
        ensures
            final(self).wf(),
            final(self)@ == Seq::<EndpointView>::empty(),
            final(self).spec_config() == old(self).spec_config(),
    {
        self.endpoints.clear();
        assert(self@ =~= Seq::<EndpointView>::empty());
    }
}

/// Capacity law: in a well-formed pool no endpoint has more live connections
/// (idle and handed out) than the configured maximum; every operation keeps
/// the pool well formed, so this holds after any sequence of them.
pub proof fn lemma_pool_capacity(p: &ConnectionPool, addr: SocketAddress)
    requires
        p.wf(),
    ensures
        p.live(addr) <= p.spec_config().max_connections_per_endpoint,
{
    let s = p@;
    let i = find_addr(s, addr);
    lemma_find_addr_bound(s, addr);
    if i < s.len() {
        assert(s[i] == p.endpoints@[i].view());
    }
}

proof fn lemma_find_addr_bound(s: Seq<EndpointView>, addr: SocketAddress)
    ensures
        0 <= find_addr(s, addr) <= s.len(),
        find_addr(s, addr) < s.len() ==> s[find_addr(s, addr)].0 == addr,
    decreases s.len(),
{
    if s.len() > 0 {
        lemma_find_addr_bound(s.drop_last(), addr);
    }
}

} // verus!
