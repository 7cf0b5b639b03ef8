//! ARP host discovery on a local Ethernet segment: the frame codec, the
//! target addresses of a subnet, the receiver's filter and the scan's
//! state machine, each with a machine-checked contract.

pub mod addr;
pub mod frame;
pub mod subnet;
pub mod table;
pub mod receiver;
pub mod scan;
