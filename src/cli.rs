//! The commands the program accepts.
use vstd::prelude::*;

verus! {

/// The parsed command line.
#[derive(Debug, Clone)]
pub struct Cli {
    pub command: Commands,
}

/// What the user asked for.
#[derive(Debug, Clone)]
pub enum Commands {
    /// List the devices.
    List,
    /// Serve the device with identifier `device_id` at `rtsp_path`, on
    /// `rtsp_port` when given.
    Serve { device_id: String, rtsp_path: String, rtsp_port: Option<u16> },
}

} // verus!
