//! Incremental decoder for a length-delimited, checksum-verified framing
//! protocol, fed one byte at a time from a stream chunked in any way.
//!
//! Wire format of one frame:
//! `[0x01] [len lo] [len hi] [payload; len] [checksum lo] [checksum hi] [0x00]`,
//! the checksum running over the two length bytes and the payload.
//!
//! `decoder` holds the state machine, `stream` the loop that drives it over a
//! chunk, `frame` the wire format as a specification, and `laws` what holds
//! of whole streams.

pub mod checksum;
pub mod decoder;
pub mod frame;
pub mod laws;
pub mod stream;

pub use checksum::{update_crc, AdditiveChecksum, ChecksumEngine, ZeroChecksum};
pub use decoder::{protocol, Context, DecoderState, FeedResult, FOOTER_MARKER, HEADER_MARKER};
pub use stream::feed_chunk;
