//! The commands of the program.

use vstd::prelude::*;

use crate::options::{HostOptions, LaunchOptions, MonitorOptions, PackerOptions, TrackOptions};

verus! {

/// What a run is to do.
#[derive(Debug)]
pub enum CommandType {
    /// Launches the specified executable with optionally provided arguments.
    /// This command is intended to be run on the guest system (i.e. a VM).
    GuestLaunch(LaunchOptions),
    /// Tracks file and registry changes on the host system without launching any executable.
    /// This command is intended to be run on the guest system (i.e. a VM).
    GuestTrack(TrackOptions),
    /// Launches a Windows Sandbox VM and runs the specified executable with optionally provided arguments.
    /// The executable will be launched in a Windows Sandbox VM with the specified options.
    /// This command is intended to be run on the host system.
    HostLaunch(HostOptions),
}

/// All that a run is asked to do.
#[derive(Debug)]
pub struct Cli {
    pub command: CommandType,
    pub monitor_options: MonitorOptions,
    pub packer_options: PackerOptions,
}

/// Whose changes to track when the launched process has the process ID `pid`.
pub fn launched_track_options(options: &LaunchOptions, pid: Option<u32>) -> (r: TrackOptions)
    ensures
        r == (TrackOptions { pid, no_children: options.no_children }),
{
    TrackOptions { pid, no_children: options.no_children }
}

} // verus!
