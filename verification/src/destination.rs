//! Where a magic packet is sent: a network address and a port.

use vstd::prelude::*;
use vstd::string::*;

verus! {

/// The limited broadcast address, to which a packet goes when the caller
/// names no other.
pub const DEFAULT_IP_ADDRESS: &'static str = "255.255.255.255";

/// The discard port, to which a packet goes when the caller names no other.
pub const DEFAULT_PORT: u16 = 9;

/// The address and port that a magic packet is sent to.
///
/// The address is kept as the caller wrote it: only the transport judges
/// it. The port is never 0.
#[derive(Debug)]
pub struct Destination {
    ip_address: String,
    port: u16,
}

/// What a [`Destination`] holds.
pub struct DestinationView {
    pub ip_address: Seq<char>,
    pub port: u16,
}

impl View for Destination {
    type V = DestinationView;

    closed spec fn view(&self) -> DestinationView {
        DestinationView { ip_address: self.ip_address@, port: self.port }
    }
}

impl Destination {
    #[verifier::type_invariant]
    spec fn port_in_range(&self) -> bool {
        self.port >= 1
    }

    /// The destination `ip_address:port`, or `None` if `port` is 0.
    pub fn new(ip_address: String, port: u16) -> (r: Option<Destination>)
        ensures
            r is None <==> port == 0,
            r matches Some(d) ==> d@ == (DestinationView { ip_address: ip_address@, port }),
    {
        if port == 0 {
            None
        } else {
            Some(Destination { ip_address, port })
        }
    }

    /// The address, as the caller wrote it.
    pub fn ip_address(&self) -> (r: &str)
        ensures
            r@ == self@.ip_address,
    {
        self.ip_address.as_str()
    }

    /// The port, which lies between 1 and 65535.
    pub fn port(&self) -> (r: u16)
        ensures
            r == self@.port,
            r >= 1,
    {
        proof {
            use_type_invariant(self);
        }
        self.port
    }
}

impl Clone for Destination {
    fn clone(&self) -> (r: Destination)
        ensures
            r@ == self@,
    {
        proof {
            use_type_invariant(self);
        }
        Destination { ip_address: self.ip_address.clone(), port: self.port }
    }
}

impl Default for Destination {
    /// The limited broadcast address and the discard port.
    fn default() -> (r: Destination)
        ensures
            r@ == (DestinationView { ip_address: DEFAULT_IP_ADDRESS@, port: DEFAULT_PORT }),
    {
        Destination { ip_address: String::from_str(DEFAULT_IP_ADDRESS), port: DEFAULT_PORT }
    }
}

} // verus!
