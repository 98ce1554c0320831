//! Wake-on-LAN: parsing a hardware address, building the magic packet that
//! wakes the device with that address, and sequencing the transport steps
//! that put the packet on the wire.
//!
//! The library performs no I/O. A caller parses the address text with
//! [`mac_from_str`], builds the payload with [`magic_packet`], and either
//! sends it directly or lets a [`Session`] say which transport step comes
//! next and what each outcome leads to.

pub mod address;
pub mod destination;
pub mod packet;
pub mod session;

pub use address::mac_from_str;
pub use destination::Destination;
pub use packet::{mac_bytes, magic_packet};
pub use session::{Action, Session, Stage, TransportError, TransportStep};
