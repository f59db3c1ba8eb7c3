//! What the program is started with.

use vstd::prelude::*;

verus! {

/// The settings of one run.
#[derive(Debug)]
pub struct Args {
    /// Address to connect to.
    pub server_address: String,
    /// Frames per second the game should try to reach. This is mainly
    /// limited by the latency of reading pixel values over the network.
    pub fps: u16,
}

} // verus!
