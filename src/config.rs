//! Link and target settings handed to the protocol core.

use vstd::prelude::*;

verus! {

/// Serial link and upload settings.
pub struct Cli {
    /// Serial port path.
    pub device: String,
    pub baudrate: u32,
    /// Read timeout, in seconds.
    pub timeout: u32,
    /// Largest encoded request, in bytes.
    pub mtu: usize,
    /// Largest transport line, marker included, in bytes.
    pub linelength: usize,
    /// Target image slot.
    pub slot: u32,
}

} // verus!
