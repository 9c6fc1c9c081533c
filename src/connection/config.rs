//! Connection configuration: retry policy with backoff, keep-alive, timeouts
//! and pool limits. Durations are in milliseconds.
use vstd::prelude::*;
use crate::error::{IoErrorKind, SomeIpError};

verus! {

/// How long to wait before a reconnect attempt.
#[derive(Debug, Clone, Copy, PartialEq, Eq, Structural)]
pub enum BackoffStrategy {
    /// Always the same delay.
    Fixed(u64),
    /// `min(max, base * multiplier^attempt)`.
    Exponential { base: u64, max: u64, multiplier: u32 },
    /// `min(max, initial + attempt * increment)`.
    Linear { initial: u64, increment: u64, max: u64 },
}

/// `base * m^a`.
pub open spec fn scaled(base: int, m: int, a: nat) -> int
    decreases a,
{
    if a == 0 {
        base
    } else {
        scaled(base, m, (a - 1) as nat) * m
    }
}

proof fn lemma_scaled_nonneg(base: int, m: int, a: nat)
    requires
        base >= 0,
        m >= 0,
    ensures
        scaled(base, m, a) >= 0,
    decreases a,
{
    if a > 0 {
        lemma_scaled_nonneg(base, m, (a - 1) as nat);
        let x = scaled(base, m, (a - 1) as nat);
        assert(x * m >= 0) by (nonlinear_arith)
            requires
                x >= 0,
                m >= 0,
        ;
    }
}

proof fn lemma_scaled_monotone(base: int, m: int, a: nat, b: nat)
    requires
        base >= 0,
        m >= 1,
        a <= b,
    ensures
        0 <= scaled(base, m, a) <= scaled(base, m, b),
    decreases b - a,
{
    lemma_scaled_nonneg(base, m, a);
    if a < b {
        lemma_scaled_monotone(base, m, a, (b - 1) as nat);
        let x = scaled(base, m, (b - 1) as nat);
        assert(x <= x * m) by (nonlinear_arith)
            requires
                x >= 0,
                m >= 1,
        ;
    }
}

proof fn lemma_scaled_zero(base: int, a: nat)
    requires
        a >= 1,
    ensures
        scaled(base, 0, a) == 0,
    decreases a,
{
    if a > 1 {
        lemma_scaled_zero(base, (a - 1) as nat);
    }
}

impl BackoffStrategy {
    /// The delay before attempt number `attempt` (counted from 0).
    pub open spec fn spec_delay(self, attempt: u32) -> u64 {
        match self {
            BackoffStrategy::Fixed(d) => d,
            BackoffStrategy::Exponential { base, max, multiplier } => {
                let v = scaled(base as int, multiplier as int, attempt as nat);
                if v < max {
                    v as u64
                } else {
                    max
                }
            },
            BackoffStrategy::Linear { initial, increment, max } => {
                let v = initial + attempt * increment;
                if v < max {
                    v as u64
                } else {
                    max
                }
            },
        }
    }

    /// The delay before attempt number `attempt` (counted from 0).
    pub fn delay_for_attempt(&self, attempt: u32) -> (r: u64)
        ensures
            r == self.spec_delay(attempt),
    {
        match *self {
            BackoffStrategy::Fixed(d) => d,
            BackoffStrategy::Exponential { base, max, multiplier } => {
                if multiplier == 0 {
                    if attempt == 0 {
                        return if base < max { base } else { max };
                    }
                    proof {
                        lemma_scaled_zero(base as int, attempt as nat);
                    }
                    return if 0 < max { 0 } else { max };
                }
                let mut d: u128 = base as u128;
                let mut i: u32 = 0;
                while i < attempt && d < max as u128
                    invariant
                        0 <= i <= attempt,
                        multiplier >= 1,
                        d == scaled(base as int, multiplier as int, i as nat),
                    decreases attempt - i,
                {
                    proof {
                        assert(d * multiplier <= (max as int) * 0x1_0000_0000) by (nonlinear_arith)
                            requires
                                d < max,
                                multiplier < 0x1_0000_0000,
                        ;
                        assert((max as int) * 0x1_0000_0000 <= u128::MAX) by (nonlinear_arith)
                            requires
                                max <= u64::MAX,
                        ;
                    }
                    d = d * (multiplier as u128);
                    i = i + 1;
                }
                proof {
                    if i < attempt {
                        lemma_scaled_monotone(base as int, multiplier as int, i as nat, attempt as nat);
                    }
                }
                if d < max as u128 {
                    d as u64
                } else {
                    max
                }
            },
            BackoffStrategy::Linear { initial, increment, max } => {
                proof {
                    assert(attempt * increment <= 0xFFFF_FFFF * (u64::MAX as int)) by (nonlinear_arith)
                        requires
                            attempt <= 0xFFFF_FFFF,
                            increment <= u64::MAX,
                    ;
                }
                let v: u128 = initial as u128 + (attempt as u128) * (increment as u128);
                if v < max as u128 {
                    v as u64
                } else {
                    max
                }
            },
        }
    }
}

impl Default for BackoffStrategy {
    fn default() -> (r: BackoffStrategy)
        ensures
            r == (BackoffStrategy::Exponential { base: 100, max: 30000, multiplier: 2 }),
    {
        BackoffStrategy::Exponential { base: 100, max: 30000, multiplier: 2 }
    }
}

/// When and how to reconnect.
#[derive(Debug, Clone, Copy, PartialEq, Eq, Structural)]
pub struct RetryPolicy {
    /// Most reconnect attempts; `None` for no limit.
    pub max_retries: Option<u32>,
    /// Delay before each attempt.
    pub backoff: BackoffStrategy,
    /// Reconnect after a timeout.
    pub retry_on_timeout: bool,
    /// Reconnect after a reset or broken connection.
    pub retry_on_connection_reset: bool,
}

impl Default for RetryPolicy {
    fn default() -> (r: RetryPolicy)
        ensures
            r == (RetryPolicy {
                max_retries: Some(5),
                backoff: BackoffStrategy::Exponential { base: 100, max: 30000, multiplier: 2 },
                retry_on_timeout: true,
                retry_on_connection_reset: true,
            }),
    {
        RetryPolicy {
            max_retries: Some(5),
            backoff: BackoffStrategy::default(),
            retry_on_timeout: true,
            retry_on_connection_reset: true,
        }
    }
}

impl RetryPolicy {
    /// Never reconnect.
    pub fn no_retry() -> (r: RetryPolicy)
        ensures
            r == (RetryPolicy {
                max_retries: Some(0),
                backoff: BackoffStrategy::Fixed(0),
                retry_on_timeout: false,
                retry_on_connection_reset: false,
            }),
    {
        RetryPolicy {
            max_retries: Some(0),
            backoff: BackoffStrategy::Fixed(0),
            retry_on_timeout: false,
            retry_on_connection_reset: false,
        }
    }

    /// Reconnect without limit, with the default backoff.
    pub fn unlimited() -> (r: RetryPolicy)
        ensures
            r == (RetryPolicy { max_retries: None, ..RetryPolicy::default_spec() }),
    {
        RetryPolicy { max_retries: None, ..RetryPolicy::default() }
    }

    /// At most `max_retries` attempts, `delay` milliseconds apart.
    pub fn fixed(max_retries: u32, delay: u64) -> (r: RetryPolicy)
        ensures
            r == (RetryPolicy {
                max_retries: Some(max_retries),
                backoff: BackoffStrategy::Fixed(delay),
                ..RetryPolicy::default_spec()
            }),
    {
        RetryPolicy { max_retries: Some(max_retries), backoff: BackoffStrategy::Fixed(delay), ..RetryPolicy::default() }
    }

    /// The default policy.
    pub open spec fn default_spec() -> RetryPolicy {
        RetryPolicy {
            max_retries: Some(5),
            backoff: BackoffStrategy::Exponential { base: 100, max: 30000, multiplier: 2 },
            retry_on_timeout: true,
            retry_on_connection_reset: true,
        }
    }

    pub open spec fn spec_should_retry(self, attempt: u32) -> bool {
        match self.max_retries {
            Some(max) => attempt < max,
            None => true,
        }
    }

    /// Whether attempt number `attempt` (counted from 0) may be made.
    pub fn should_retry(&self, attempt: u32) -> (r: bool)
        ensures
            r == self.spec_should_retry(attempt),
    {
        match self.max_retries {
            Some(max) => attempt < max,
            None => true,
        }
    }

    /// The delay before attempt number `attempt`.
    pub fn delay_for_attempt(&self, attempt: u32) -> (r: u64)
        ensures
            r == self.backoff.spec_delay(attempt),
    {
        self.backoff.delay_for_attempt(attempt)
    }

    /// Whether an error calls for reconnecting: a reset or broken connection
    /// when so configured, a timeout or would-block when so configured.
    pub open spec fn spec_retries_error(self, err: SomeIpError) -> bool {
        match err {
            SomeIpError::Io(e) => if e.kind == IoErrorKind::ConnectionReset || e.kind == IoErrorKind::BrokenPipe {
                self.retry_on_connection_reset
            } else if e.kind == IoErrorKind::TimedOut || e.kind == IoErrorKind::WouldBlock {
                self.retry_on_timeout
            } else {
                false
            },
            _ => false,
        }
    }

    /// Whether an error calls for reconnecting.
    pub fn retries_error(&self, err: &SomeIpError) -> (r: bool)
        ensures
            r == self.spec_retries_error(*err),
    {
        match err {
            SomeIpError::Io(e) => {
                let k = e.kind;
                if k == IoErrorKind::ConnectionReset || k == IoErrorKind::BrokenPipe {
                    self.retry_on_connection_reset
                } else if k == IoErrorKind::TimedOut || k == IoErrorKind::WouldBlock {
                    self.retry_on_timeout
                } else {
                    false
                }
            },
            _ => false,
        }
    }
}

/// Keep-alive hints for the transport.
#[derive(Debug, Clone, Copy, PartialEq, Eq, Structural)]
pub struct KeepAliveConfig {
    /// Interval between probes.
    pub interval: u64,
    /// Time to wait for a probe's answer.
    pub timeout: u64,
    /// Number of probes.
    pub probes: u32,
}

impl Default for KeepAliveConfig {
    fn default() -> (r: KeepAliveConfig)
        ensures
            r == (KeepAliveConfig { interval: 30000, timeout: 5000, probes: 3 }),
    {
        KeepAliveConfig { interval: 30000, timeout: 5000, probes: 3 }
    }
}

/// Configuration of a managed connection.
#[derive(Debug, Clone, Copy, PartialEq, Eq, Structural)]
pub struct ConnectionConfig {
    /// Reconnect automatically after a loss.
    pub auto_reconnect: bool,
    /// Retry policy.
    pub retry_policy: RetryPolicy,
    /// Keep-alive hints.
    pub keep_alive: Option<KeepAliveConfig>,
    /// Connect timeout.
    pub connect_timeout: u64,
    /// Read timeout.
    pub read_timeout: Option<u64>,
    /// Write timeout.
    pub write_timeout: Option<u64>,
}

impl Default for ConnectionConfig {
    fn default() -> (r: ConnectionConfig)
        ensures
            r == (ConnectionConfig {
                auto_reconnect: true,
                retry_policy: RetryPolicy::default_spec(),
                keep_alive: Some(KeepAliveConfig { interval: 30000, timeout: 5000, probes: 3 }),
                connect_timeout: 5000,
                read_timeout: Some(30000),
                write_timeout: Some(30000),
            }),
    {
        ConnectionConfig {
            auto_reconnect: true,
            retry_policy: RetryPolicy::default(),
            keep_alive: Some(KeepAliveConfig::default()),
            connect_timeout: 5000,
            read_timeout: Some(30000),
            write_timeout: Some(30000),
        }
    }
}

/// What to do after a connection was lost.
#[derive(Debug, Clone, Copy, PartialEq, Eq, Structural)]
pub enum ReconnectStep {
    /// Reconnecting is disabled: the connection has failed.
    Disabled,
    /// Wait `delay` milliseconds, then make attempt number `attempt`.
    Retry { delay: u64, attempt: u32 },
    /// Every allowed attempt was made: the connection has failed.
    Exhausted,
}

impl ConnectionConfig {
    /// No reconnecting, no keep-alive, no read or write timeouts.
    pub fn simple() -> (r: ConnectionConfig)
        ensures
            r == (ConnectionConfig {
                auto_reconnect: false,
                retry_policy: RetryPolicy {
                    max_retries: Some(0),
                    backoff: BackoffStrategy::Fixed(0),
                    retry_on_timeout: false,
                    retry_on_connection_reset: false,
                },
                keep_alive: None,
                connect_timeout: 5000,
                read_timeout: None,
                write_timeout: None,
            }),
    {
        ConnectionConfig {
            auto_reconnect: false,
            retry_policy: RetryPolicy::no_retry(),
            keep_alive: None,
            connect_timeout: 5000,
            read_timeout: None,
            write_timeout: None,
        }
    }

    /// The default configuration, which reconnects.
    pub fn robust() -> (r: ConnectionConfig)
        ensures
            r.auto_reconnect,
            r.retry_policy == RetryPolicy::default_spec(),
    {
        Self::default()
    }

    /// Enable or disable reconnecting.
    pub fn with_auto_reconnect(self, enabled: bool) -> (r: ConnectionConfig)
        ensures
            r == (ConnectionConfig { auto_reconnect: enabled, ..self }),
    {
        ConnectionConfig { auto_reconnect: enabled, ..self }
    }

    /// Set the retry policy.
    pub fn with_retry_policy(self, policy: RetryPolicy) -> (r: ConnectionConfig)
        ensures
            r == (ConnectionConfig { retry_policy: policy, ..self }),
    {
        ConnectionConfig { retry_policy: policy, ..self }
    }

    /// Set keep-alive hints.
    pub fn with_keep_alive(self, config: KeepAliveConfig) -> (r: ConnectionConfig)
        ensures
            r == (ConnectionConfig { keep_alive: Some(config), ..self }),
    {
        ConnectionConfig { keep_alive: Some(config), ..self }
    }

    /// Drop keep-alive hints.
    pub fn without_keep_alive(self) -> (r: ConnectionConfig)
        ensures
            r == (ConnectionConfig { keep_alive: None, ..self }),
    {
        ConnectionConfig { keep_alive: None, ..self }
    }

    /// Set the connect timeout.
    pub fn with_connect_timeout(self, timeout: u64) -> (r: ConnectionConfig)
        ensures
            r == (ConnectionConfig { connect_timeout: timeout, ..self }),
    {
        ConnectionConfig { connect_timeout: timeout, ..self }
    }

    /// Set the read timeout.
    pub fn with_read_timeout(self, timeout: u64) -> (r: ConnectionConfig)
        ensures
            r == (ConnectionConfig { read_timeout: Some(timeout), ..self }),
    {
        ConnectionConfig { read_timeout: Some(timeout), ..self }
    }

    /// Set the write timeout.
    pub fn with_write_timeout(self, timeout: u64) -> (r: ConnectionConfig)
        ensures
            r == (ConnectionConfig { write_timeout: Some(timeout), ..self }),
    {
        ConnectionConfig { write_timeout: Some(timeout), ..self }
    }

    /// Whether a lost connection that failed with `err` is to be reconnected.
    pub fn reconnects_after(&self, err: &SomeIpError) -> (r: bool)
        ensures
            r == (self.auto_reconnect && self.retry_policy.spec_retries_error(*err)),
    {
        self.auto_reconnect && self.retry_policy.retries_error(err)
    }

    /// The next step of reconnecting after `attempts` failed attempts.
    pub fn reconnect_step(&self, attempts: u32) -> (r: ReconnectStep)
        ensures
            !self.auto_reconnect ==> r == ReconnectStep::Disabled,
            self.auto_reconnect && self.retry_policy.spec_should_retry(attempts) ==> r == (ReconnectStep::Retry {
                delay: self.retry_policy.backoff.spec_delay(attempts),
                attempt: attempts,
            }),
            self.auto_reconnect && !self.retry_policy.spec_should_retry(attempts) ==> r == ReconnectStep::Exhausted,
    {
        if !self.auto_reconnect {
            ReconnectStep::Disabled
        } else if self.retry_policy.should_retry(attempts) {
            ReconnectStep::Retry { delay: self.retry_policy.delay_for_attempt(attempts), attempt: attempts }
        } else {
            ReconnectStep::Exhausted
        }
    }
}

/// Configuration of a connection pool.
#[derive(Debug, Clone, Copy, PartialEq, Eq, Structural)]
pub struct PoolConfig {
    /// Most live connections per endpoint.
    pub max_connections_per_endpoint: usize,
    /// Idle time after which a pooled connection expires.
    pub idle_timeout: u64,
    /// Age after which a pooled connection expires; `None` for no limit.
    pub max_lifetime: Option<u64>,
    /// Configuration of new connections.
    pub connection_config: ConnectionConfig,
}

impl Default for PoolConfig {
    fn default() -> (r: PoolConfig)
        ensures
            r.max_connections_per_endpoint == 10,
            r.idle_timeout == 60000,
            r.max_lifetime == Some(3600000u64),
            !r.connection_config.auto_reconnect,
    {
        PoolConfig {
            max_connections_per_endpoint: 10,
            idle_timeout: 60000,
            max_lifetime: Some(3600000),
            connection_config: ConnectionConfig::simple(),
        }
    }
}

impl PoolConfig {
    /// Set the most live connections per endpoint.
    pub fn with_max_connections(self, max: usize) -> (r: PoolConfig)
        ensures
            r == (PoolConfig { max_connections_per_endpoint: max, ..self }),
    {
        PoolConfig { max_connections_per_endpoint: max, ..self }
    }

    /// Set the idle timeout.
    pub fn with_idle_timeout(self, timeout: u64) -> (r: PoolConfig)
        ensures
            r == (PoolConfig { idle_timeout: timeout, ..self }),
    {
        PoolConfig { idle_timeout: timeout, ..self }
    }

    /// Set the maximum lifetime.
    pub fn with_max_lifetime(self, lifetime: u64) -> (r: PoolConfig)
        ensures
            r == (PoolConfig { max_lifetime: Some(lifetime), ..self }),
    {
        PoolConfig { max_lifetime: Some(lifetime), ..self }
    }

    /// Drop the maximum lifetime.
    pub fn without_max_lifetime(self) -> (r: PoolConfig)
        ensures
            r == (PoolConfig { max_lifetime: None, ..self }),
    {
        PoolConfig { max_lifetime: None, ..self }
    }

    /// Set the configuration of new connections.
    pub fn with_connection_config(self, config: ConnectionConfig) -> (r: PoolConfig)
        ensures
            r == (PoolConfig { connection_config: config, ..self }),
    {
        PoolConfig { connection_config: config, ..self }
    }
}

} // verus!
