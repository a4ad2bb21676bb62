//! A typed message transport over UDP: a canonical binary codec for a fixed
//! message type per channel, and the decisions a channel makes around its
//! socket (how to set it up, what to send, what a received datagram means).
//! The socket calls themselves are made by the caller with the values these
//! functions hand out.

pub mod codec;
pub mod address;
pub mod socket;
pub mod channel;
