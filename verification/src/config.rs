//! Fixed configuration of the command service.

use vstd::prelude::*;
use vstd::string::*;
use crate::text::{decimal, push_decimal};

verus! {

/// Namespace of the service's configuration constants.
pub struct ServerConfig;

impl ServerConfig {
    /// UDP port on which commands are received, on all interfaces.
    pub const COMMAND_PORT: u16 = 45455;

    /// Size in bytes of the receive buffer; a longer datagram is cut to it.
    pub const COMMAND_BUFFER_SIZE: usize = 1024;

    /// The address the command socket is bound to: every interface, at the
    /// command port.
    pub open spec fn spec_bind_address() -> Seq<char> {
        "0.0.0.0:"@ + decimal(Self::COMMAND_PORT as int)
    }

    /// The address the command socket is bound to, as `0.0.0.0:port`.
    pub fn bind_address() -> (address: String)
        ensures
            address@ == Self::spec_bind_address(),
    {
        let mut address = String::new();
        address.append("0.0.0.0:");
        push_decimal(&mut address, Self::COMMAND_PORT as i64);
        address
    }
}

} // verus!
