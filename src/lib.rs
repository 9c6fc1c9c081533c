//! SOME/IP protocol core: message codec, stream framing, transport-protocol
//! segmentation and reassembly, service-discovery wire format and state, and
//! the decision logic of connection management and pooling.

mod clock;
pub mod codec;
pub mod connection;
pub mod error;
pub mod header;
pub mod message;
pub mod sd;
mod text;
pub mod tp;
pub mod types;

pub use error::{IoError, IoErrorKind, Result, SomeIpError};
pub use header::{ClientId, MethodId, ServiceId, SessionId, SomeIpHeader, HEADER_SIZE};
pub use message::{MessageBuilder, SomeIpMessage};
pub use tp::{TpReassembler, TpSegment};
pub use types::{MessageType, ReturnCode, PROTOCOL_VERSION};
