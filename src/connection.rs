//! Connection management: states and statistics, retry policy and backoff,
//! session numbering, reconnect decisions, and pool bookkeeping.

pub mod config;
pub mod pool;
pub mod session;
pub mod state;

pub use config::{BackoffStrategy, ConnectionConfig, KeepAliveConfig, PoolConfig, ReconnectStep, RetryPolicy};
pub use pool::{ConnectionPool, PoolDecision, PooledConnection};
pub use session::SessionCounter;
pub use state::{ConnectionState, ConnectionStats};
