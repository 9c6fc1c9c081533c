//! Connection states and statistics.
use vstd::prelude::*;
use crate::clock::clock_millis;

verus! {

/// The state of a managed connection.
#[derive(Debug, Clone, Copy, PartialEq, Eq, Structural)]
pub enum ConnectionState {
    /// Not connected.
    Disconnected,
    /// Connecting for the first time.
    Connecting,
    /// Connected.
    Connected,
    /// Connecting again after a loss.
    Reconnecting,
    /// Gave up reconnecting.
    Failed,
}

impl ConnectionState {
    /// Whether the connection is established.
    pub fn is_connected(&self) -> (r: bool)
        ensures
            r == (*self == ConnectionState::Connected),
    {
        *self == ConnectionState::Connected
    }

    /// Whether a connection attempt is under way.
    pub fn is_connecting(&self) -> (r: bool)
        ensures
            r == (*self == ConnectionState::Connecting || *self == ConnectionState::Reconnecting),
    {
        *self == ConnectionState::Connecting || *self == ConnectionState::Reconnecting
    }

    /// Whether reconnecting was given up.
    pub fn is_failed(&self) -> (r: bool)
        ensures
            r == (*self == ConnectionState::Failed),
    {
        *self == ConnectionState::Failed
    }
}

impl Default for ConnectionState {
    fn default() -> (r: ConnectionState)
        ensures
            r == ConnectionState::Disconnected,
    {
        ConnectionState::Disconnected
    }
}

/// Statistics of a managed connection. Times are in milliseconds; counters
/// saturate at their maximum.
#[derive(Debug, Clone, Copy, PartialEq, Eq, Structural)]
pub struct ConnectionStats {
    pub connect_count: u64,
    pub failure_count: u64,
    pub reconnect_count: u64,
    pub messages_sent: u64,
    pub messages_received: u64,
    pub bytes_sent: u64,
    pub bytes_received: u64,
    pub last_connected: Option<u64>,
    pub last_disconnected: Option<u64>,
    pub last_error: Option<u64>,
}

/// `a + b`, saturating at the largest `u64`.
pub open spec fn sat_add(a: u64, b: int) -> u64 {
    if a + b <= u64::MAX {
        (a + b) as u64
    } else {
        u64::MAX
    }
}

impl Default for ConnectionStats {
    fn default() -> (r: ConnectionStats)
        ensures
            r == (ConnectionStats {
                connect_count: 0,
                failure_count: 0,
                reconnect_count: 0,
                messages_sent: 0,
                messages_received: 0,
                bytes_sent: 0,
                bytes_received: 0,
                last_connected: None,
                last_disconnected: None,
                last_error: None,
            }),
    {
        ConnectionStats {
            connect_count: 0,
            failure_count: 0,
            reconnect_count: 0,
            messages_sent: 0,
            messages_received: 0,
            bytes_sent: 0,
            bytes_received: 0,
            last_connected: None,
            last_disconnected: None,
            last_error: None,
        }
    }
}

impl ConnectionStats {
    /// Record a connect at time `now`.
    pub fn record_connect_at(&mut self, now: u64)
        ensures
            *final(self) == (ConnectionStats {
                connect_count: sat_add(old(self).connect_count, 1),
                last_connected: Some(now),
                ..*old(self)
            }),
    {
        self.connect_count = self.connect_count.saturating_add(1);
        self.last_connected = Some(now);
    }

    /// Record a connect now.
    pub fn record_connect(&mut self)
        ensures
            final(self).connect_count == sat_add(old(self).connect_count, 1),
            final(self).last_connected is Some,
            *final(self) == (ConnectionStats {
                connect_count: final(self).connect_count,
                last_connected: final(self).last_connected,
                ..*old(self)
            }),
    {
        self.record_connect_at(clock_millis());
    }

    /// Record a disconnect at time `now`.
    pub fn record_disconnect_at(&mut self, now: u64)
        ensures
            *final(self) == (ConnectionStats { last_disconnected: Some(now), ..*old(self) }),
    {
        self.last_disconnected = Some(now);
    }

    /// Record a disconnect now.
    pub fn record_disconnect(&mut self)
        ensures
            final(self).last_disconnected is Some,
            *final(self) == (ConnectionStats { last_disconnected: final(self).last_disconnected, ..*old(self) }),
    {
        self.record_disconnect_at(clock_millis());
    }

    /// Record a failure at time `now`.
    pub fn record_failure_at(&mut self, now: u64)
        ensures
            *final(self) == (ConnectionStats {
                failure_count: sat_add(old(self).failure_count, 1),
                last_error: Some(now),
                ..*old(self)
            }),
    {
        self.failure_count = self.failure_count.saturating_add(1);
        self.last_error = Some(now);
    }

    /// Record a failure now.
    pub fn record_failure(&mut self)
        ensures
            final(self).failure_count == sat_add(old(self).failure_count, 1),
            final(self).last_error is Some,
            *final(self) == (ConnectionStats {
                failure_count: final(self).failure_count,
                last_error: final(self).last_error,
                ..*old(self)
            }),
    {
        self.record_failure_at(clock_millis());
    }

    /// Record a reconnect attempt.
    pub fn record_reconnect(&mut self)
        ensures
            *final(self) == (ConnectionStats { reconnect_count: sat_add(old(self).reconnect_count, 1), ..*old(self) }),
    {
        self.reconnect_count = self.reconnect_count.saturating_add(1);
    }

    /// Record a sent message of `bytes` bytes.
    pub fn record_send(&mut self, bytes: usize)
        ensures
            *final(self) == (ConnectionStats {
                messages_sent: sat_add(old(self).messages_sent, 1),
                bytes_sent: sat_add(old(self).bytes_sent, bytes as int),
                ..*old(self)
            }),
    {
        self.messages_sent = self.messages_sent.saturating_add(1);
        let b: u64 = if bytes as u128 > u64::MAX as u128 { u64::MAX } else { bytes as u64 };
        self.bytes_sent = self.bytes_sent.saturating_add(b);
    }

    /// Record a received message of `bytes` bytes.
    pub fn record_receive(&mut self, bytes: usize)
        ensures
            *final(self) == (ConnectionStats {
                messages_received: sat_add(old(self).messages_received, 1),
                bytes_received: sat_add(old(self).bytes_received, bytes as int),
                ..*old(self)
            }),
    {
        self.messages_received = self.messages_received.saturating_add(1);
        let b: u64 = if bytes as u128 > u64::MAX as u128 { u64::MAX } else { bytes as u64 };
        self.bytes_received = self.bytes_received.saturating_add(b);
    }

    /// Time connected at `now`, in milliseconds, if ever connected.
    pub fn uptime_at(&self, now: u64) -> (r: Option<u64>)
        ensures
            r == match self.last_connected {
                Some(t) => Some(if now >= t { (now - t) as u64 } else { 0u64 }),
                None => None::<u64>,
            },
    {
        match self.last_connected {
            Some(t) => Some(if now >= t { now - t } else { 0 }),
            None => None,
        }
    }

    /// Time connected now, in milliseconds, if ever connected.
    pub fn uptime(&self) -> (r: Option<u64>)
        ensures
            r is Some == self.last_connected is Some,
    {
        self.uptime_at(clock_millis())
    }
}

} // verus!
