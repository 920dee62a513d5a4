//! Core of a LAN file-sharing daemon: peer discovery over UDP multicast,
//! session lifecycle tracking with timeout-based reaping, and a framed,
//! length-prefixed file-transfer protocol with path-safe file naming.

use vstd::prelude::*;

pub mod text;
pub mod commands;
pub mod daemon;
pub mod discovery;
pub mod protocol;
pub mod receive;
pub mod session;
pub mod transfer;

pub use text::u64_to_string;

verus! {

} // verus!
