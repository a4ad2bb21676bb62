use vstd::prelude::*;

use crate::address::{address_text, socket_address};
use crate::codec::ChannelError;

verus! {

/// How a UDP socket is to be made: the local address to bind, the IP
/// type-of-service option value to apply (if any), and whether the socket is
/// non-blocking.
#[derive(Debug, Clone, PartialEq, Eq)]
pub struct SocketSetup {
    pub bind_addr: String,
    pub type_of_service: Option<i32>,
    pub nonblocking: bool,
}

/// The socket factory's plan: bind `tx_ipaddr` on an ephemeral port (port 0,
/// chosen by the system) and apply `tos` as the IP type-of-service option,
/// widened to a 32-bit option value whose upper bytes are zero. The socket is
/// left blocking.
pub fn create_udp_socket(tos: u8, tx_ipaddr: &str) -> (r: SocketSetup)
    ensures
        r.bind_addr@ == address_text(tx_ipaddr@, 0),
        r.type_of_service == Some(tos as i32),
        !r.nonblocking,
{
    SocketSetup { bind_addr: socket_address(tx_ipaddr, 0), type_of_service: Some(tos as i32), nonblocking: false }
}

/// Whether a type-of-service option call, if one was made, reported success.
pub open spec fn option_applied(option_status: Option<i32>) -> bool {
    match option_status {
        Some(s) => s == 0,
        None => true,
    }
}

/// Whether a socket set up by a `SocketSetup` is ready, from what the system
/// reported at each step: whether the bind succeeded, the status the
/// type-of-service option call returned (`None` when none was made), and
/// whether the blocking mode was set. Setup is all or nothing: the first step
/// that failed is reported.
pub fn setup_outcome(bound: bool, option_status: Option<i32>, mode_set: bool) -> (r: Result<(), ChannelError>)
    ensures
        !bound ==> r == Err::<(), ChannelError>(ChannelError::BindError),
        bound && !option_applied(option_status) ==> r == Err::<(), ChannelError>(
            ChannelError::OptionError,
        ),
        bound && option_applied(option_status) && !mode_set ==> r == Err::<(), ChannelError>(
            ChannelError::BindError,
        ),
        r is Ok <==> bound && option_applied(option_status) && mode_set,
{
    if !bound {
        return Err(ChannelError::BindError);
    }
    match option_status {
        Some(s) => {
            if s != 0 {
                return Err(ChannelError::OptionError);
            }
        },
        None => {},
    }
    if mode_set {
        Ok(())
    } else {
        Err(ChannelError::BindError)
    }
}

} // verus!
