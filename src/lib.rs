//! Link- and network-layer protocol stack for a long-range radio mesh:
//! packet framing with CRC-16 integrity checks, AES-GCM payload encryption
//! with an anti-replay nonce cache, per-peer registries that split messages
//! into fragments and reassemble them, the address table, the blacklist and
//! the decision logic of the transmit and receive dispatch loops.
use vstd::prelude::*;

pub mod arp_table;
pub mod blacklist;
pub mod bytes;
pub mod controls;
pub mod crypto;
pub mod device;
pub mod gps;
pub mod nonce_cache;
pub mod packet;
pub mod queue;
pub mod radio;
pub mod registry;
pub mod vehicle_radio;

verus! {

} // verus!
