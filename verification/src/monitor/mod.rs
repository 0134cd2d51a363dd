//! The ways of finding out what changes.

pub mod details;
pub mod executable;
pub mod journal;
pub mod operations;
pub mod procmon;
pub mod session;
pub mod usn;
pub mod winapi;

use vstd::prelude::*;

use crate::changes::ChangeMap;
use crate::options::{MonitorMethod, MonitorOptions, TrackOptions};
use crate::text::{is_first_nul, nul_terminated, ContainsNul};
use procmon::{MonitorState, ProcmonMonitor, RegistryKey};
use usn::{opens, path_device, UsnMonitor, VolumeError};
use winapi::WinApiMonitor;

verus! {

/// A monitor of any kind.
pub enum AnyMonitor {
    Usn(UsnMonitor),
    WinApi(WinApiMonitor),
    Procmon(ProcmonMonitor),
}

impl AnyMonitor {
    /// The changed registry keys, once the monitor has been stopped. Only the
    /// monitor that works with Process Monitor follows the registry.
    pub fn get_changed_registry_keys(&self) -> (r: Option<&ChangeMap<RegistryKey>>)
        ensures
            !(self is Procmon) ==> r is None,
            match *self {
                AnyMonitor::Procmon(monitor) => match monitor.state {
                    MonitorState::Stopped(result) => r == Some(&result.registry_keys),
                    _ => r is None,
                },
                _ => r is None,
            },
    {
        match self {
            AnyMonitor::Procmon(monitor) => monitor.get_changed_registry_keys(),
            _ => None,
        }
    }
}

/// Why there is no monitor for the options.
#[derive(Debug, Clone, Copy, PartialEq, Eq, Structural)]
pub enum MonitorError {
    /// The volume has no journal to follow.
    Volume(VolumeError),
    /// The path of the folder holds a NUL.
    Folder(ContainsNul),
}

/// The monitor that the options ask for. Only the one that works with Process
/// Monitor heeds which process is to be tracked.
pub fn new_boxed(options: MonitorOptions, track_options: TrackOptions) -> (r: Result<
    AnyMonitor,
    MonitorError,
>)
    ensures
        match options.method {
            MonitorMethod::Usn => match path_device(options.path.path@) {
                Some(device) => match r {
                    Ok(AnyMonitor::Usn(monitor)) => opens(device, Ok(monitor.usn))
                        && monitor.initial_usn is None && monitor.end_usn is None && monitor.options
                        == options,
                    Err(MonitorError::Volume(e)) => opens(device, Err(e)),
                    _ => false,
                },
                None => r matches Err(MonitorError::Volume(VolumeError::InvalidPath)),
            },
            MonitorMethod::WinApi => match r {
                Ok(AnyMonitor::WinApi(monitor)) => monitor.api.folder@ == nul_terminated(
                    options.path.text@,
                ) && monitor.state is NotStarted && monitor.options == options && forall|at: int|
                    #[trigger] is_first_nul(options.path.text@, at) ==> at == options.path.text@.len() - 1,
                Err(MonitorError::Folder(e)) => is_first_nul(
                    options.path.text@,
                    e.position as int,
                ) && e.position < options.path.text@.len() - 1,
                _ => false,
            },
            MonitorMethod::Procmon => r matches Ok(AnyMonitor::Procmon(monitor)) && monitor.options
                == options && monitor.track_options == track_options
                && monitor.state is NotStarted,
        },
{
    match options.method {
        MonitorMethod::Usn => match UsnMonitor::new(options, track_options) {
            Ok(monitor) => Ok(AnyMonitor::Usn(monitor)),
            Err(e) => Err(MonitorError::Volume(e)),
        },
        MonitorMethod::WinApi => match WinApiMonitor::new(options, track_options) {
            Ok(monitor) => Ok(AnyMonitor::WinApi(monitor)),
            Err(e) => Err(MonitorError::Folder(e)),
        },
        MonitorMethod::Procmon => Ok(
            AnyMonitor::Procmon(ProcmonMonitor::new(options, track_options)),
        ),
    }
}

} // verus!
