//! Fast-path UDP header rewriting for a TURN relay.
//!
//! A relayed packet is either a full UDP datagram that has to be framed as a
//! channel-data message, or a channel-data message that has to be expanded
//! into a full UDP datagram. Either way the UDP header is rewritten in place:
//! ports and length are replaced, and the checksum is brought up to date from
//! the words that changed, without looking at the payload.
//!
//! * [`ref_mut_at`] hands out a bounds-checked window into a packet.
//! * [`checksum`] holds the one's-complement arithmetic of the UDP checksum.
//! * [`udp`] is the view of a UDP header and its rewrite.
pub mod checksum;
pub mod error;
pub mod ref_mut_at;
pub mod udp;

pub use crate::error::Error;
