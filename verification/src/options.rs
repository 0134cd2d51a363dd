//! What a run is asked to do.

use vstd::prelude::*;

use crate::given::GivenPath;
use crate::item::ItemMetadata;

verus! {

/// How changes are found.
#[derive(Debug, Clone, Copy, PartialEq, Eq, Structural)]
pub enum MonitorMethod {
    /// Uses the NTFS USN journal to monitor file changes. This method is the most efficient and has the least overhead.
    /// Can only track files in NTFS volumes. This method only tracks actual disk changes, not file system events.
    /// Does not support registry changes or PID filtering.
    Usn,
    /// Uses the Windows API (`ReadDirectoryChangesEx`) to monitor file changes. This is the only method that can be
    /// run without administrator privileges.
    /// Does not support registry changes or PID filtering.
    WinApi,
    /// Uses Process Monitor to track changes. This method takes significantly longer to start and process, but it
    /// provides the most comprehensive results.
    /// The only method to support registry changes and PID filtering.
    Procmon,
}

/// What to monitor.
#[derive(Debug)]
pub struct MonitorOptions {
    /// The method to use for monitoring file changes.
    pub method: MonitorMethod,
    /// The path to monitor for changes.
    /// If using host launch, this is the path on the guest system.
    pub path: GivenPath,
    /// Tracks creation of files and directories.
    pub creation: bool,
    /// Tracks deletion of files and directories.
    pub deletion: bool,
    /// Tracks modification of files and directories.
    pub modification: bool,
    /// Tracks the renaming of files and directories.
    pub renaming: bool,
    /// Additionally registry changes based on the previous options.
    /// This option is only supported by the Procmon method.
    pub add_registry: bool,
    /// The path to the Procmon executable. If not specified, it will be downloaded automatically.
    /// If not provided, the PATH will be searched for `Procmon64.exe`.
    pub procmon_path: Option<GivenPath>,
}

/// Whose changes to track.
#[derive(Debug, Clone, Copy, PartialEq, Eq)]
pub struct TrackOptions {
    /// The process ID to filter changes by. If not specified, all processes will be monitored.
    /// This option is only supported by the Procmon method.
    pub pid: Option<u32>,
    /// Don't track child processes of the specified PID.
    /// This option is only supported by the Procmon method.
    pub no_children: bool,
}

/// What to launch.
#[derive(Debug)]
pub struct LaunchOptions {
    /// The path to the executable to launch.
    pub process: GivenPath,
    /// The arguments to pass to the executable.
    pub args: Vec<String>,
    /// Don't track child processes of the specified PID.
    /// This option is only supported by the Procmon method.
    pub no_children: bool,
    /// Turn the machine off when the executable has ended.
    pub shutdown_on_exit: bool,
}

/// How to launch it in a Windows Sandbox.
#[derive(Debug)]
pub struct HostOptions {
    pub launch_options: LaunchOptions,
    /// Share the entire folder that contains the executable with the Windows Sandbox VM.
    /// This will allow the VM to access the executable and any possible dependencies it may have.
    pub share_process_folder: bool,
    /// Allows write access to the folder that contains the executable in the Windows Sandbox VM.
    pub writable_process_folder: bool,
    /// Adds a root certificate to the Windows Sandbox VM.
    /// Supports both PEM and DER formats.
    pub cert_path: Option<GivenPath>,
    /// The amount of time to delay launching & tracking. This is useful to prevent capturing startup events/cruft.
    /// Defaults to 5 seconds.
    pub delay: u64,
    /// Disables the vGPU in the Windows Sandbox VM.
    pub no_vgpu: bool,
    /// Disables networking in the Windows Sandbox VM.
    pub no_network: bool,
    /// Runs the VM in Protected Client mode using AppContainer Isolation.
    pub isolated: bool,
    /// The amount of memory to allocate to the Windows Sandbox VM in MiB.
    pub memory: Option<u64>,
}

/// What to write out.
#[derive(Debug)]
pub struct PackerOptions {
    /// The output zip file where the changes will be written.
    pub output: GivenPath,
    /// If the output file already exists, it will be overwritten.
    pub overwrite: bool,
    /// Changed files greater than this size will not be included (they will still be tracked).
    /// Defaults to 256 MiB.
    pub size_limit: u64,
}

/// The part of `meta` that the options ask to track.
pub open spec fn wanted(options: MonitorOptions, meta: ItemMetadata) -> ItemMetadata {
    ItemMetadata {
        created: meta.created && options.creation,
        modified: meta.modified && options.modification,
        deleted: meta.deleted && options.deletion,
        renamed: meta.renamed && options.renaming,
    }
}

impl MonitorOptions {
    /// The part of `meta` that the options ask to track.
    pub fn keep_wanted(&self, meta: &ItemMetadata) -> (r: ItemMetadata)
        ensures
            r == wanted(*self, *meta),
    {
        ItemMetadata {
            created: meta.created && self.creation,
            modified: meta.modified && self.modification,
            deleted: meta.deleted && self.deletion,
            renamed: meta.renamed && self.renaming,
        }
    }
}

} // verus!
