use someip_rs::connection::{
    BackoffStrategy, ConnectionConfig, ConnectionPool, ConnectionState, ConnectionStats, PoolConfig, PoolDecision,
    PooledConnection, RetryPolicy, SessionCounter,
};
use someip_rs::connection::config::ReconnectStep;
use someip_rs::error::{IoError, IoErrorKind, SomeIpError};
use someip_rs::sd::{Ipv4Address, SocketAddress};

#[test]
fn test_connection_state() {
    assert!(ConnectionState::Connected.is_connected());
    assert!(!ConnectionState::Disconnected.is_connected());
    assert!(ConnectionState::Connecting.is_connecting());
    assert!(ConnectionState::Reconnecting.is_connecting());
    assert!(ConnectionState::Failed.is_failed());
}

#[test]
fn test_connection_stats() {
    let mut stats = ConnectionStats::default();
    stats.record_connect();
    assert_eq!(stats.connect_count, 1);
    assert!(stats.last_connected.is_some());
    stats.record_send(100);
    stats.record_receive(200);
    assert_eq!(stats.messages_sent, 1);
    assert_eq!(stats.bytes_sent, 100);
    assert_eq!(stats.messages_received, 1);
    assert_eq!(stats.bytes_received, 200);
    stats.record_failure();
    assert_eq!(stats.failure_count, 1);
    assert!(stats.last_error.is_some());
    assert!(stats.uptime().is_some());
    stats.record_connect_at(1000);
    assert_eq!(stats.uptime_at(1500), Some(500));
}

#[test]
fn test_backoff_fixed() {
    let strategy = BackoffStrategy::Fixed(100);
    assert_eq!(strategy.delay_for_attempt(0), 100);
    assert_eq!(strategy.delay_for_attempt(5), 100);
}

#[test]
fn test_backoff_exponential() {
    let strategy = BackoffStrategy::Exponential { base: 100, max: 10_000, multiplier: 2 };
    assert_eq!(strategy.delay_for_attempt(0), 100);
    assert_eq!(strategy.delay_for_attempt(1), 200);
    assert_eq!(strategy.delay_for_attempt(2), 400);
    assert_eq!(strategy.delay_for_attempt(10), 10_000);
}

#[test]
fn backoff_exponential_large_attempts() {
    let strategy = BackoffStrategy::Exponential { base: 1, max: u64::MAX, multiplier: 3 };
    assert_eq!(strategy.delay_for_attempt(4), 81);
    assert_eq!(strategy.delay_for_attempt(u32::MAX), u64::MAX);
    let zero = BackoffStrategy::Exponential { base: 50, max: 1000, multiplier: 0 };
    assert_eq!(zero.delay_for_attempt(0), 50);
    assert_eq!(zero.delay_for_attempt(3), 0);
}

#[test]
fn test_backoff_linear() {
    let strategy = BackoffStrategy::Linear { initial: 100, increment: 50, max: 1000 };
    assert_eq!(strategy.delay_for_attempt(0), 100);
    assert_eq!(strategy.delay_for_attempt(1), 150);
    assert_eq!(strategy.delay_for_attempt(2), 200);
    assert_eq!(strategy.delay_for_attempt(100), 1000);
}

#[test]
fn test_retry_policy_should_retry() {
    let policy = RetryPolicy::fixed(3, 100);
    assert!(policy.should_retry(0));
    assert!(policy.should_retry(2));
    assert!(!policy.should_retry(3));
    let unlimited = RetryPolicy::unlimited();
    assert!(unlimited.should_retry(1000));
    assert!(!RetryPolicy::no_retry().should_retry(0));
}

#[test]
fn test_connection_config_builder() {
    let config = ConnectionConfig::simple().with_auto_reconnect(true).with_connect_timeout(10_000);
    assert!(config.auto_reconnect);
    assert_eq!(config.connect_timeout, 10_000);
}

#[test]
fn reconnect_decisions() {
    let config = ConnectionConfig::default();
    let reset = SomeIpError::Io(IoError::new(IoErrorKind::ConnectionReset, "reset"));
    let refused = SomeIpError::Io(IoError::new(IoErrorKind::ConnectionRefused, "refused"));
    assert!(config.reconnects_after(&reset));
    assert!(!config.reconnects_after(&refused));
    assert!(!ConnectionConfig::simple().reconnects_after(&reset));
    assert_eq!(config.reconnect_step(0), ReconnectStep::Retry { delay: 100, attempt: 0 });
    assert_eq!(config.reconnect_step(2), ReconnectStep::Retry { delay: 400, attempt: 2 });
    assert_eq!(config.reconnect_step(5), ReconnectStep::Exhausted);
    assert_eq!(ConnectionConfig::simple().reconnect_step(0), ReconnectStep::Disabled);
}

#[test]
fn session_counter_skips_zero() {
    let mut c = SessionCounter::new();
    assert_eq!(c.next_session_id().0, 1);
    assert_eq!(c.next_session_id().0, 2);
    let mut seen = 2u32;
    for _ in 0..70_000 {
        let id = c.next_session_id();
        assert_ne!(id.0, 0);
        seen += 1;
    }
    assert_eq!(seen, 70_002);
}

#[test]
fn test_pool_config() {
    let config = PoolConfig::default().with_max_connections(5).with_idle_timeout(30_000);
    assert_eq!(config.max_connections_per_endpoint, 5);
    assert_eq!(config.idle_timeout, 30_000);
}

#[test]
fn test_pool_new() {
    let pool = ConnectionPool::with_defaults();
    assert_eq!(pool.total_connections(), 0);
}

#[test]
fn pool_capacity_scenario() {
    let a = SocketAddress::V4(Ipv4Address::new(10, 0, 0, 1), 1);
    let mut pool = ConnectionPool::new(PoolConfig::default().with_max_connections(2).with_idle_timeout(60_000));
    assert_eq!(pool.get_at(a, 0), PoolDecision::Create);
    assert_eq!(pool.get_at(a, 0), PoolDecision::Create);
    assert_eq!(pool.get_at(a, 0), PoolDecision::LimitReached);
    let conn = PooledConnection { id: 7, created_at: 0, last_used: 0 };
    assert!(pool.return_connection(a, conn, 10));
    assert_eq!(pool.connection_count(a), 1);
    assert_eq!(pool.get_at(a, 20), PoolDecision::Reuse(PooledConnection { id: 7, created_at: 0, last_used: 20 }));
    assert_eq!(pool.get_at(a, 20), PoolDecision::LimitReached);
    pool.discard(a);
    assert_eq!(pool.get_at(a, 30), PoolDecision::Create);
}

#[test]
fn pool_expiry_and_cleanup() {
    let a = SocketAddress::V4(Ipv4Address::new(10, 0, 0, 2), 2);
    let mut pool = ConnectionPool::new(PoolConfig::default().with_max_connections(3).with_idle_timeout(100).with_max_lifetime(1000));
    assert_eq!(pool.get_at(a, 0), PoolDecision::Create);
    assert_eq!(pool.get_at(a, 0), PoolDecision::Create);
    assert!(pool.return_connection(a, PooledConnection { id: 1, created_at: 0, last_used: 0 }, 0));
    assert!(pool.return_connection(a, PooledConnection { id: 2, created_at: 0, last_used: 0 }, 150));
    assert_eq!(pool.total_connections(), 2);
    assert_eq!(pool.cleanup_at(200), 1);
    assert_eq!(pool.connection_count(a), 1);
    assert_eq!(pool.get_at(a, 1001), PoolDecision::Create);
    pool.clear();
    assert_eq!(pool.total_connections(), 0);
}

#[test]
fn pool_holds_returned_ids() {
    let a = SocketAddress::V4(Ipv4Address::new(10, 0, 0, 3), 3);
    let mut pool = ConnectionPool::new(PoolConfig::default().with_max_connections(1));
    assert_eq!(pool.get_at(a, 0), PoolDecision::Create);
    assert!(!pool.holds(5));
    assert!(pool.return_connection(a, PooledConnection { id: 5, created_at: 0, last_used: 0 }, 0));
    assert!(pool.holds(5));
}

#[test]
fn session_counter_wraps_to_one() {
    let mut c = SessionCounter::new();
    for k in 1..=0xFFFFu32 {
        assert_eq!(c.next_session_id().0 as u32, k);
    }
    assert_eq!(c.next_session_id().0, 1);
    assert_eq!(c.next_session_id().0, 2);
}
