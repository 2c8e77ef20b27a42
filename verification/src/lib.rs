//! The state of one media line (an m-line in SDP) of an RTP session.
//!
//! A [`media::Media`] keeps the senders and receivers of the line, the packets waiting to be sent
//! or resent, the samples waiting to be read and the RTCP feedback that is due. Every operation
//! is specified over [`media::MediaModel`], the mathematical model of that state, and the
//! properties that span several operations are proved in [`laws`].
//!
//! The library takes and gives plain values. Writing the bytes of an RTP header, splitting a
//! sample into payloads and reassembling payloads into samples is work for the caller, which
//! hands the outcome back to the operation that needs it.

pub mod buffer_rx;
pub mod buffer_tx;
pub mod codec;
pub mod direction;
pub mod error;
pub mod ext;
pub mod header;
pub mod ids;
pub mod laws;
pub mod media;
pub mod receiver;
pub mod rtcp;
pub mod sdp;
pub mod search;
pub mod sender;
pub mod time;

pub use media::write::MediaWriter;
pub use media::{Media, MediaKind};
