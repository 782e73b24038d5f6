//! A safety-oriented layer over a DPDK-style native packet-processing runtime.
//!
//! The crate models the two places where such a binding layer does real design
//! work: the packet-buffer lifetime and ownership model (the mbuf / mempool /
//! allocator subsystem) and the cross-core task-launch bookkeeping (lcore
//! launch / join).  Native handles are represented by owned values whose
//! contents the contracts describe exactly, so that the ownership, bounds and
//! accounting rules the layer must uphold are machine-checked.

pub mod error;
pub mod ethdev;
pub mod launch;
pub mod lcore;
pub mod mac_addr;
pub mod mbuf;
pub mod memory;
pub mod mempool;

pub use error::{Error, ReturnValue};
