//! Verified core of a peer-to-peer remote desktop: the length-prefixed
//! framing of the transport, the wire messages, the mapping of remote
//! input events into injectable actions, the video pipeline around the codec
//! crates, and the bookkeeping of the host and viewer sessions.

pub mod codec;
pub mod frame;
pub mod input;
pub mod protocol;
pub mod session;
pub mod video;
