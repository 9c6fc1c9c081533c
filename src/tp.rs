//! Transport protocol: segmentation of large payloads and their reassembly.

pub mod header;
pub mod ordering;
pub mod reassembly;
pub mod segment;

pub use header::{TpHeader, TP_HEADER_SIZE};
pub use reassembly::{ReassemblyKey, TpReassembler};
pub use segment::{decode_datagram, needs_segmentation, segment_message, Datagram, TpSegment, DEFAULT_MAX_SEGMENT_PAYLOAD};
