use vstd::prelude::*;
use vstd::slice::slice_subrange;

use crate::address::{address_text, socket_address};
use crate::codec::{decode, decode_outcome, encode, encode_outcome, ChannelError, Message, MessageType};
use crate::socket::{create_udp_socket, SocketSetup};

verus! {

/// The type-of-service byte applied to a sender's socket.
pub const SENDER_TOS: u8 = 192;

/// How many bytes one receive can hold; a longer datagram is cut to this size
/// by the system before it is decoded.
pub const RECEIVE_CAPACITY: usize = 100;

/// A channel: one peer address, one role and one message type, all fixed when
/// it is made. The socket itself is owned by the caller, which sets it up as
/// `socket_setup` says and performs the sends and receives that `publish` and
/// `listen` decide on.
#[derive(Debug, Clone, PartialEq, Eq)]
pub struct PsWrapper {
    /// The peer address, `ip:port`: where a sender sends and where a
    /// receiver is bound.
    pub target_addr: String,
    pub is_sender: bool,
    pub msg_type: MessageType,
}

/// What `publish` asks of the caller.
#[derive(Debug, Clone, PartialEq, Eq)]
pub enum Publish {
    /// Send `payload` as one datagram to `to`.
    Send { payload: Vec<u8>, to: String },
    /// Send nothing: the channel is a receiver. Worth a warning, not an error.
    Skip,
}

/// What `listen` makes of one receive attempt.
#[derive(Debug, PartialEq, Eq)]
pub enum Listen {
    /// Nothing was received: receive again.
    Wait,
    /// A datagram arrived; this is what it decodes to.
    Done(Result<Message, ChannelError>),
}

/// What `publish` returns on a channel with the given state.
pub open spec fn publish_outcome(
    is_sender: bool,
    target: Seq<char>,
    msg_type: MessageType,
    message: Message,
    r: Result<Publish, ChannelError>,
) -> bool {
    if !is_sender {
        r == Ok::<Publish, ChannelError>(Publish::Skip)
    } else {
        match r {
            Ok(Publish::Send { payload, to }) => to@ == target && encode_outcome(
                msg_type,
                message@,
                Ok(payload),
            ),
            Ok(Publish::Skip) => false,
            Err(e) => encode_outcome(msg_type, message@, Err(e)),
        }
    }
}

impl PsWrapper {
    /// A channel to `target_ip:port` carrying `msg_type`; a sender unless
    /// `is_sender` says otherwise.
    pub fn new(target_ip: &str, port: u16, msg_type: MessageType, is_sender: Option<bool>) -> (r:
        PsWrapper)
        ensures
            r.target_addr@ == address_text(target_ip@, port as nat),
            r.is_sender == match is_sender {
                Some(b) => b,
                None => true,
            },
            r.msg_type == msg_type,
    {
        let is_sender = match is_sender {
            Some(b) => b,
            None => true,
        };
        PsWrapper { target_addr: socket_address(target_ip, port), is_sender, msg_type }
    }

    /// How this channel's socket is made. A sender binds the wildcard address
    /// on an ephemeral port, applies `SENDER_TOS` and does not block; a
    /// receiver binds the target address itself, applies no option, and
    /// blocks.
    pub fn socket_setup(&self) -> (r: SocketSetup)
        ensures
            self.is_sender ==> r.bind_addr@ == address_text("0.0.0.0"@, 0) && r.type_of_service
                == Some(SENDER_TOS as i32) && r.nonblocking,
            !self.is_sender ==> r.bind_addr@ == self.target_addr@ && r.type_of_service is None
                && !r.nonblocking,
    {
        if self.is_sender {
            let plan = create_udp_socket(SENDER_TOS, "0.0.0.0");
            SocketSetup { nonblocking: true, ..plan }
        } else {
            SocketSetup { bind_addr: self.target_addr.clone(), type_of_service: None, nonblocking: false }
        }
    }

    /// Decides what publishing `message` takes: a sender sends its encoding
    /// as one datagram to the target address, or fails as encoding fails; a
    /// receiver sends nothing and succeeds.
    pub fn publish(&self, message: &Message) -> (r: Result<Publish, ChannelError>)
        ensures
            publish_outcome(self.is_sender, self.target_addr@, self.msg_type, *message, r),
    {
        if self.is_sender {
            match encode(&self.msg_type, message) {
                Ok(payload) => Ok(Publish::Send { payload, to: self.target_addr.clone() }),
                Err(e) => Err(e),
            }
        } else {
            Ok(Publish::Skip)
        }
    }

    /// One step of listening: `received` is the length of the datagram that a
    /// receive into `buf` got, or `None` when the receive failed. A failed
    /// receive is retried; a datagram is decoded as the channel's type.
    pub fn listen(&self, buf: &[u8], received: Option<usize>) -> (r: Listen)
        requires
            received matches Some(n) ==> n <= buf@.len(),
        ensures
            received is None ==> r == Listen::Wait,
            received matches Some(n) ==> (r matches Listen::Done(res) && decode_outcome(
                self.msg_type,
                buf@.subrange(0, n as int),
                res,
            )),
    {
        match received {
            None => Listen::Wait,
            Some(n) => Listen::Done(decode(&self.msg_type, slice_subrange(buf, 0, n))),
        }
    }
}

} // verus!
