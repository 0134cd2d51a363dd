//! Running an installer in Windows Sandbox: what the sandbox gets to see, and
//! what it is told to do.

use vstd::prelude::*;
use vstd::string::*;

use crate::cli::{Cli, CommandType};
use crate::given::{entry, given_view, joined_given, spelled, GivenModel, GivenPath};
use crate::launch::{
    base64_bytes, base64_text, decoded, encode_arguments, is_encodable, is_url_safe,
};
use crate::monitor::executable::{file_in, PROCMON_32};
use crate::options::{HostOptions, LaunchOptions, MonitorOptions, PackerOptions};
use crate::path::{
    added_verbatim, append_units, extension, extension_of, file_name_of, is_reading,
    is_well_built, joined, parent_of, ComponentModel, PathComponent, PathPrefix, PrefixModel, WinPath, COLON, DOT,
    SEPARATOR,
};
use crate::text::{
    decimal_text, encode_utf16, is_high_surrogate, is_low_surrogate, surrogate_pair, to_decimal,
    utf16, utf16_lossy,
};
use crate::utils::{create_temp_name, is_temp_name};

verus! {

/// The program that opens a configuration.
pub const SANDBOX_PROGRAM: &'static str = "C:\\Windows\\System32\\WindowsSandbox.exe";

/// The name of this program in the sandbox.
pub const GUEST_PROGRAM: &'static str = "dynstaller.exe";

/// The name of the script that starts this program in the sandbox.
pub const LAUNCH_SCRIPT: &'static str = "launch.ps1";

/// The name of the archive that the sandbox writes.
pub const OUTPUT_NAME: &'static str = "output.zip";

/// How the script is started, up to its path.
pub const LOGON_START: &'static str = "powershell.exe -ExecutionPolicy Bypass -NoProfile -File ";

/// A setting of the sandbox.
#[derive(Debug, Clone, Copy, PartialEq, Eq, Structural)]
pub enum OptionValue {
    Enable,
    Disable,
    Default,
}

impl Default for OptionValue {
    fn default() -> (r: Self)
        ensures
            r == OptionValue::Default,
    {
        OptionValue::Default
    }
}

impl OptionValue {
    /// Tells whether the setting is left to the sandbox.
    pub fn is_default(&self) -> (r: bool)
        ensures
            r == (*self == OptionValue::Default),
    {
        matches!(self, OptionValue::Default)
    }
}

/// A folder of the host that the sandbox sees.
#[derive(Debug)]
pub struct MappedFolder {
    pub host_folder: String,
    pub sandbox_folder: String,
    pub read_only: bool,
}

/// The folders of the host that the sandbox sees.
#[derive(Debug)]
pub struct MappedFolders {
    pub mapped_folders: Vec<MappedFolder>,
}

/// What the sandbox runs first.
#[derive(Debug)]
pub struct LogonCommand {
    pub command: String,
}

/// The configuration of a sandbox.
#[derive(Debug)]
pub struct Configuration {
    pub mapped_folders: MappedFolders,
    pub logon_command: LogonCommand,
    pub vgpu: OptionValue,
    pub networking: OptionValue,
    pub audio_input: OptionValue,
    pub video_input: OptionValue,
    pub protected_client: OptionValue,
    pub printer_redirection: OptionValue,
    pub clipboard_redirection: OptionValue,
    pub memory_in_mb: Option<u64>,
}

impl Default for Configuration {
    fn default() -> (r: Self)
        ensures
            r.mapped_folders.mapped_folders@.len() == 0,
            r.logon_command.command@.len() == 0,
            r.vgpu == OptionValue::Default,
            r.networking == OptionValue::Default,
            r.audio_input == OptionValue::Default,
            r.video_input == OptionValue::Default,
            r.protected_client == OptionValue::Default,
            r.printer_redirection == OptionValue::Default,
            r.clipboard_redirection == OptionValue::Default,
            r.memory_in_mb is None,
    {
        Configuration {
            mapped_folders: MappedFolders { mapped_folders: Vec::new() },
            logon_command: LogonCommand { command: String::new() },
            vgpu: OptionValue::Default,
            networking: OptionValue::Default,
            audio_input: OptionValue::Default,
            video_input: OptionValue::Default,
            protected_client: OptionValue::Default,
            printer_redirection: OptionValue::Default,
            clipboard_redirection: OptionValue::Default,
            memory_in_mb: None,
        }
    }
}

/// How a path is shown: as it is spelled, with U+FFFD for what is no text.
pub open spec fn shown(path: GivenModel) -> Seq<char> {
    utf16_lossy(path.text)
}

/// Shows a path.
pub fn show_path(path: &GivenPath) -> (r: String)
    ensures
        r@ == shown(path@),
{
    String::from_utf16_lossy(path.text.as_slice())
}

/// `C:\`
pub open spec fn volume_root() -> GivenModel {
    GivenModel {
        text: seq![0x43u16, COLON, SEPARATOR],
        path: seq![
            ComponentModel::Prefix { kind: PrefixModel::Disk(0x43), text: seq![0x43u16, COLON] },
            ComponentModel::RootDir,
        ],
    }
}

/// The folder `name` in the root of the volume `C:`.
pub open spec fn root_folder(name: Seq<char>) -> GivenModel {
    file_in(volume_root(), name)
}

fn folder_in_root(name: &str) -> (r: GivenPath)
    ensures
        r@ == root_folder(name@),
{
    let mut components: Vec<PathComponent> = Vec::new();
    components.push(PathComponent::Prefix(PathPrefix::disk(0x43)));
    components.push(PathComponent::RootDir);
    let root: GivenPath = GivenPath {
        text: vec![0x43, COLON, SEPARATOR],
        path: WinPath { components },
    };
    assert(root@ =~= volume_root());
    file_of(&root, name)
}

/// The path of the file `name` in the folder `folder`.
fn file_of(folder: &GivenPath, name: &str) -> (r: GivenPath)
    ensures
        r@ == file_in(folder@, name@),
{
    folder.join(&GivenPath::entry(encode_utf16(name)))
}

/// What is known of the host when a sandbox is prepared.
#[derive(Debug)]
pub struct HostFacts {
    /// The folder that host and sandbox share.
    pub work_folder: GivenPath,
    /// The Process Monitor executable, where it is needed.
    pub procmon: Option<HostFile>,
    /// The canonical path of the executable to launch. The system spells it with
    /// single backslashes.
    pub process: WinPath,
    /// Its name, if it has one, as the system reads it alone.
    pub process_name: Option<GivenPath>,
}

/// A file of the host.
#[derive(Debug)]
pub struct HostFile {
    pub path: GivenPath,
    /// Its name, if it has one, as the system reads it alone.
    pub name: Option<GivenPath>,
}

/// `name` can be the name of the file at `path`, as the system reads it alone.
pub open spec fn is_name_of(name: Option<GivenModel>, path: Seq<ComponentModel>) -> bool {
    match file_name_of(path) {
        Some(text) => name matches Some(n) && n.text == text && is_reading(
            ComponentModel::Normal(text),
            n.path,
        ),
        None => name is None,
    }
}

impl HostFacts {
    /// The names are those of the files, and there is a Process Monitor
    /// executable where the options ask for one.
    pub open spec fn fits(self, options: MonitorOptions) -> bool {
        &&& options.method is Procmon <==> self.procmon is Some
        &&& self.procmon matches Some(file) ==> is_name_of(given_view(file.name), file.path.path@)
        &&& is_name_of(given_view(self.process_name), self.process@)
    }
}

/// Why a sandbox cannot be prepared.
#[derive(Debug, Clone, Copy, PartialEq, Eq, Structural)]
pub enum HostError {
    /// The path of the executable to launch names no file.
    NoFileName,
}

/// What is copied to the folder that host and sandbox share.
#[derive(Debug)]
pub enum CopySource {
    /// This program.
    Program,
    /// Another file.
    File(GivenPath),
}

/// A copy to make before the sandbox starts.
#[derive(Debug)]
pub struct FileCopy {
    pub from: CopySource,
    pub to: GivenPath,
}

/// A copy of `from` to `to`, where `None` stands for this program.
pub open spec fn is_copy(
    copy: FileCopy,
    from: Option<GivenModel>,
    to: GivenModel,
) -> bool {
    copy.to@ == to && match copy.from {
        CopySource::Program => from is None,
        CopySource::File(path) => from == Some(path@),
    }
}

/// What the script in the sandbox does.
#[derive(Debug)]
pub struct LaunchScript {
    /// The certificate to install.
    pub cert_path: Option<GivenPath>,
    /// How many seconds to wait.
    pub delay: u64,
    /// The program to start.
    pub program: GivenPath,
}

/// A sandbox that is ready to start.
#[derive(Debug)]
pub struct Hoster {
    pub packer_output: GivenPath,
    pub host_work_folder: GivenPath,
    pub wsb_configuration: Configuration,
}

/// A sandbox and what has to be done before it can start: the copies, the
/// arguments for the program in it, and the script.
#[derive(Debug)]
pub struct HostPlan {
    pub hoster: Hoster,
    pub copies: Vec<FileCopy>,
    pub guest: Cli,
    pub script: LaunchScript,
}

/// The name that a certificate gets: it keeps its extension.
pub open spec fn cert_name(cert: Seq<ComponentModel>) -> Seq<u16> {
    let ext = match file_name_of(cert) {
        Some(name) => match extension_of(name) {
            Some(ext) => ext,
            None => utf16("cer"@),
        },
        None => utf16("cer"@),
    };
    if ext.len() == 0 {
        utf16("cert"@)
    } else {
        utf16("cert"@).push(DOT) + ext
    }
}

/// The name that the Process Monitor executable gets.
pub open spec fn procmon_name(name: Option<GivenModel>) -> GivenModel {
    match name {
        Some(name) => name,
        None => entry(utf16(PROCMON_32@)),
    }
}

/// What the sandbox is told to launch and where things are: all that follows
/// from the choice of two folder names.
pub struct PlanModel {
    pub host_work: GivenModel,
    pub sandbox_work: GivenModel,
    /// The folder in the sandbox that takes the folder of the executable, if it
    /// is shared.
    pub sandbox_shared: Option<GivenModel>,
    pub process: Seq<ComponentModel>,
    pub process_name: GivenModel,
    pub cert: Option<GivenModel>,
    /// The Process Monitor executable and its name.
    pub procmon: Option<(GivenModel, Option<GivenModel>)>,
}

impl PlanModel {
    /// The path of the executable in the sandbox.
    pub open spec fn sandbox_process(self) -> GivenModel {
        let folder = match self.sandbox_shared {
            Some(shared) => shared,
            None => self.sandbox_work,
        };
        joined_given(folder, self.process_name)
    }

    /// The path of the certificate in the sandbox.
    pub open spec fn sandbox_cert(self) -> Option<GivenModel> {
        match self.cert {
            Some(cert) => Some(joined_given(self.sandbox_work, entry(cert_name(cert.path)))),
            None => None,
        }
    }

    /// The path of the Process Monitor executable in the sandbox.
    pub open spec fn sandbox_procmon(self) -> Option<GivenModel> {
        match self.procmon {
            Some((_, name)) => Some(joined_given(self.sandbox_work, procmon_name(name))),
            None => None,
        }
    }

    /// The copies to make: what is copied, and to where.
    pub open spec fn copies(self) -> Seq<(Option<GivenModel>, GivenModel)> {
        let program = seq![(None, file_in(self.host_work, GUEST_PROGRAM@))];
        let cert = match self.cert {
            Some(cert) => seq![
                (Some(cert), joined_given(self.host_work, entry(cert_name(cert.path)))),
            ],
            None => Seq::empty(),
        };
        let procmon = match self.procmon {
            Some((path, name)) => seq![
                (Some(path), joined_given(self.host_work, procmon_name(name))),
            ],
            None => Seq::empty(),
        };
        let process = match self.sandbox_shared {
            Some(_) => Seq::empty(),
            None => seq![
                (Some(spelled(self.process)), joined_given(self.host_work, self.process_name)),
            ],
        };
        program + cert + procmon + process
    }

    /// The folders that the sandbox sees: on the host, and in the sandbox.
    pub open spec fn folders(self) -> Seq<(GivenModel, GivenModel)> {
        let work = seq![(self.host_work, self.sandbox_work)];
        match self.sandbox_shared {
            Some(shared) => work.push((spelled(parent_of(self.process)->0), shared)),
            None => work,
        }
    }
}

/// What follows for `options` from the names of two folders in the sandbox.
pub open spec fn plan_model(
    options: HostOptions,
    facts: HostFacts,
    work_name: Seq<char>,
    shared_name: Seq<char>,
) -> PlanModel {
    PlanModel {
        host_work: facts.work_folder@,
        sandbox_work: root_folder(work_name),
        sandbox_shared: if options.share_process_folder {
            Some(root_folder(shared_name))
        } else {
            None
        },
        process: facts.process@,
        process_name: given_view(facts.process_name)->0,
        cert: given_view(options.cert_path),
        procmon: match facts.procmon {
            Some(file) => Some((file.path@, given_view(file.name))),
            None => None,
        },
    }
}

/// `configuration` shows the sandbox the folders of `model`, the shared folder
/// of the executable for reading only unless the options say otherwise, starts
/// the script, and is set up as the options say.
pub open spec fn is_configured(
    configuration: Configuration,
    options: HostOptions,
    model: PlanModel,
) -> bool {
    let folders = configuration.mapped_folders.mapped_folders@;
    &&& folders.len() == model.folders().len()
    &&& forall|i: int|
        0 <= i < folders.len() ==> (#[trigger] folders[i]).host_folder@ == shown(
            model.folders()[i].0,
        ) && folders[i].sandbox_folder@ == shown(model.folders()[i].1) && folders[i].read_only == (i
            == 1 && !options.writable_process_folder)
    &&& configuration.logon_command.command@ == LOGON_START@ + shown(
        file_in(model.sandbox_work, LAUNCH_SCRIPT@),
    )
    &&& configuration.vgpu == (if options.no_vgpu {
        OptionValue::Disable
    } else {
        OptionValue::Default
    })
    &&& configuration.networking == (if options.no_network {
        OptionValue::Disable
    } else {
        OptionValue::Default
    })
    &&& configuration.protected_client == (if options.isolated {
        OptionValue::Enable
    } else {
        OptionValue::Default
    })
    &&& configuration.audio_input == OptionValue::Default
    &&& configuration.video_input == OptionValue::Default
    &&& configuration.printer_redirection == OptionValue::Default
    &&& configuration.clipboard_redirection == OptionValue::Default
    &&& configuration.memory_in_mb == options.memory
}

/// `guest` launches the executable in the sandbox with its arguments, monitors
/// what `monitor_options` say with the Process Monitor executable of the
/// sandbox, packs into a new archive in the shared folder, and shuts the sandbox
/// down.
pub open spec fn is_guest(
    guest: Cli,
    options: HostOptions,
    monitor_options: MonitorOptions,
    packer_options: PackerOptions,
    model: PlanModel,
) -> bool {
    &&& guest.command matches CommandType::GuestLaunch(launch) && launch.process@
        == model.sandbox_process() && launch.shutdown_on_exit && launch.args
        == options.launch_options.args && launch.no_children == options.launch_options.no_children
    &&& given_view(guest.monitor_options.procmon_path) == model.sandbox_procmon()
    &&& guest.monitor_options == (MonitorOptions {
        procmon_path: guest.monitor_options.procmon_path,
        ..monitor_options
    })
    &&& guest.packer_options.output@ == file_in(model.sandbox_work, OUTPUT_NAME@)
    &&& !guest.packer_options.overwrite
    &&& guest.packer_options.size_limit == packer_options.size_limit
}

/// `plan` is what `model` asks for.
pub open spec fn is_plan(
    plan: HostPlan,
    options: HostOptions,
    monitor_options: MonitorOptions,
    packer_options: PackerOptions,
    model: PlanModel,
) -> bool {
    &&& plan.hoster.packer_output == packer_options.output
    &&& plan.hoster.host_work_folder@ == model.host_work
    &&& is_configured(plan.hoster.wsb_configuration, options, model)
    &&& plan.copies@.len() == model.copies().len()
    &&& forall|i: int|
        0 <= i < plan.copies@.len() ==> is_copy(
            #[trigger] plan.copies@[i],
            model.copies()[i].0,
            model.copies()[i].1,
        )
    &&& is_guest(plan.guest, options, monitor_options, packer_options, model)
    &&& given_view(plan.script.cert_path) == model.sandbox_cert()
    &&& plan.script.delay == options.delay
    &&& plan.script.program@ == file_in(model.sandbox_work, GUEST_PROGRAM@)
}

/// The name that the certificate `cert` gets.
fn choose_cert_name(cert: &WinPath) -> (r: Vec<u16>)
    ensures
        r@ == cert_name(cert@),
{
    let ext: Vec<u16> = match cert.file_name() {
        Some(name) => match extension(&name) {
            Some(ext) => ext,
            None => encode_utf16("cer"),
        },
        None => encode_utf16("cer"),
    };
    let mut name: Vec<u16> = encode_utf16("cert");
    if ext.len() > 0 {
        name.push(DOT);
        append_units(&mut name, &ext);
    }
    name
}

/// The name that the Process Monitor executable `procmon` gets.
fn choose_procmon_name(procmon: &HostFile) -> (r: GivenPath)
    ensures
        r@ == procmon_name(given_view(procmon.name)),
{
    match &procmon.name {
        Some(name) => name.clone(),
        None => GivenPath::entry(encode_utf16(PROCMON_32)),
    }
}

fn setting(changed: bool, value: OptionValue) -> (r: OptionValue)
    ensures
        r == (if changed {
            value
        } else {
            OptionValue::Default
        }),
{
    if changed {
        value
    } else {
        OptionValue::Default
    }
}

impl Hoster {
    /// Prepares a sandbox. The names of the folders in it are made up.
    pub fn new(
        options: HostOptions,
        monitor_options: MonitorOptions,
        packer_options: PackerOptions,
        facts: HostFacts,
    ) -> (r: Result<HostPlan, HostError>)
        requires
            facts.fits(monitor_options),
        ensures
            match r {
                Ok(plan) => file_name_of(facts.process@) is Some && exists|
                    work_name: Seq<char>,
                    shared_name: Seq<char>,
                |
                    is_temp_name(work_name) && is_temp_name(shared_name) && is_plan(
                        plan,
                        options,
                        monitor_options,
                        packer_options,
                        #[trigger] plan_model(options, facts, work_name, shared_name),
                    ),
                Err(e) => file_name_of(facts.process@) is None && e == HostError::NoFileName,
            },
    {
        let work_name: String = create_temp_name();
        let shared_name: String = create_temp_name();
        Self::plan(
            options,
            monitor_options,
            packer_options,
            facts,
            work_name.as_str(),
            shared_name.as_str(),
        )
    }

    /// Prepares a sandbox with the given names of the folders in it.
    pub fn plan(
        options: HostOptions,
        monitor_options: MonitorOptions,
        packer_options: PackerOptions,
        facts: HostFacts,
        work_name: &str,
        shared_name: &str,
    ) -> (r: Result<HostPlan, HostError>)
        requires
            facts.fits(monitor_options),
        ensures
            match r {
                Ok(plan) => file_name_of(facts.process@) is Some && is_plan(
                    plan,
                    options,
                    monitor_options,
                    packer_options,
                    plan_model(options, facts, work_name@, shared_name@),
                ),
                Err(e) => file_name_of(facts.process@) is None && e == HostError::NoFileName,
            },
    {
        let ghost model = plan_model(options, facts, work_name@, shared_name@);
        let process_name: GivenPath = match &facts.process_name {
            Some(name) => name.clone(),
            None => {
                return Err(HostError::NoFileName);
            },
        };
        let sandbox_work: GivenPath = folder_in_root(work_name);
        let mut folders: Vec<MappedFolder> = Vec::new();
        folders.push(
            MappedFolder {
                host_folder: show_path(&facts.work_folder),
                sandbox_folder: show_path(&sandbox_work),
                read_only: false,
            },
        );
        let mut copies: Vec<FileCopy> = Vec::new();
        copies.push(
            FileCopy {
                from: CopySource::Program,
                to: file_of(&facts.work_folder, GUEST_PROGRAM),
            },
        );
        let cert_path: Option<GivenPath> = match &options.cert_path {
            Some(cert) => {
                let name: GivenPath = GivenPath::entry(choose_cert_name(&cert.path));
                copies.push(
                    FileCopy {
                        from: CopySource::File(cert.clone()),
                        to: facts.work_folder.join(&name),
                    },
                );
                Some(sandbox_work.join(&name))
            },
            None => None,
        };
        let procmon_path: Option<GivenPath> = match &facts.procmon {
            Some(procmon) => {
                let name: GivenPath = choose_procmon_name(procmon);
                copies.push(
                    FileCopy {
                        from: CopySource::File(procmon.path.clone()),
                        to: facts.work_folder.join(&name),
                    },
                );
                Some(sandbox_work.join(&name))
            },
            None => None,
        };
        let sandbox_process: GivenPath = if options.share_process_folder {
            let sandbox_shared: GivenPath = folder_in_root(shared_name);
            if let Some(process_folder) = facts.process.parent() {
                folders.push(
                    MappedFolder {
                        host_folder: show_path(&GivenPath::of(process_folder)),
                        sandbox_folder: show_path(&sandbox_shared),
                        read_only: !options.writable_process_folder,
                    },
                );
            }
            sandbox_shared.join(&process_name)
        } else {
            copies.push(
                FileCopy {
                    from: CopySource::File(GivenPath::of(facts.process.clone())),
                    to: facts.work_folder.join(&process_name),
                },
            );
            sandbox_work.join(&process_name)
        };
        let mut command: String = LOGON_START.to_owned();
        let script_path: String = show_path(&file_of(&sandbox_work, LAUNCH_SCRIPT));
        command.append(script_path.as_str());
        let wsb_configuration: Configuration = Configuration {
            mapped_folders: MappedFolders { mapped_folders: folders },
            logon_command: LogonCommand { command },
            vgpu: setting(options.no_vgpu, OptionValue::Disable),
            networking: setting(options.no_network, OptionValue::Disable),
            protected_client: setting(options.isolated, OptionValue::Enable),
            memory_in_mb: options.memory,
            ..Configuration::default()
        };
        let guest: Cli = Cli {
            command: CommandType::GuestLaunch(
                LaunchOptions {
                    process: sandbox_process,
                    shutdown_on_exit: true,
                    ..options.launch_options
                },
            ),
            monitor_options: MonitorOptions { procmon_path, ..monitor_options },
            packer_options: PackerOptions {
                output: file_of(&sandbox_work, OUTPUT_NAME),
                overwrite: false,
                size_limit: packer_options.size_limit,
            },
        };
        let plan: HostPlan = HostPlan {
            hoster: Hoster {
                packer_output: packer_options.output,
                host_work_folder: facts.work_folder,
                wsb_configuration,
            },
            copies,
            guest,
            script: LaunchScript {
                cert_path,
                delay: options.delay,
                program: file_of(&sandbox_work, GUEST_PROGRAM),
            },
        };
        Ok(plan)
    }

    /// Where the sandbox leaves its archive on the host.
    pub fn sandbox_output(&self) -> (r: GivenPath)
        ensures
            r@ == file_in(self.host_work_folder@, OUTPUT_NAME@),
    {
        file_of(&self.host_work_folder, OUTPUT_NAME)
    }

    /// Where the script goes on the host.
    pub fn script_path(&self) -> (r: GivenPath)
        ensures
            r@ == file_in(self.host_work_folder@, LAUNCH_SCRIPT@),
    {
        file_of(&self.host_work_folder, LAUNCH_SCRIPT)
    }
}

/// How `char::escape_debug` writes the character `c`.
pub uninterp spec fn escaped_char(c: char) -> Seq<char>;

/// `char::escape_debug`: the character as it stands in a quoted text. What that
/// is for each character is left unsaid.
#[verifier::external_body]
fn escape_char(c: char) -> (r: String)
    ensures
        r@ == escaped_char(c),
{
    c.escape_debug().to_string()
}

/// The digit of the hexadecimal system for `n`, in lower case.
pub open spec fn lower_hex_digit(n: int) -> char {
    if n < 10 {
        (n + 0x30) as char
    } else {
        (n + 0x57) as char
    }
}

/// How a surrogate without a partner stands in a quoted text.
pub open spec fn escaped_surrogate(u: u16) -> Seq<char> {
    seq![
        '\\',
        'u',
        '{',
        lower_hex_digit(u as int / 0x1000),
        lower_hex_digit(u as int / 0x100 % 16),
        lower_hex_digit(u as int / 16 % 16),
        lower_hex_digit(u as int % 16),
        '}',
    ]
}

/// `units` as they stand in a quoted text.
pub open spec fn escaped(units: Seq<u16>) -> Seq<char>
    decreases units.len(),
{
    if units.len() == 0 {
        Seq::empty()
    } else if is_high_surrogate(units[0]) && units.len() > 1 && is_low_surrogate(units[1]) {
        escaped_char(surrogate_pair(units[0], units[1])) + escaped(units.skip(2))
    } else if is_high_surrogate(units[0]) || is_low_surrogate(units[0]) {
        escaped_surrogate(units[0]) + escaped(units.drop_first())
    } else {
        escaped_char(units[0] as char) + escaped(units.drop_first())
    }
}

/// `units` as a quoted text.
pub open spec fn quoted(units: Seq<u16>) -> Seq<char> {
    seq!['"'] + escaped(units) + seq!['"']
}

fn push_lower_hex(text: &mut String, n: u16)
    requires
        n < 16,
    ensures
        final(text)@ == old(text)@.push(lower_hex_digit(n as int)),
{
    let digit: u8 = n as u8;
    if digit < 10 {
        text.push((digit + 0x30) as char);
    } else {
        text.push((digit + 0x57) as char);
    }
}

/// Appends the character that `pair` stands for, as it stands in a quoted text.
fn push_escaped(text: &mut String, pair: &Vec<u16>)
    requires
        utf16_lossy(pair@).len() == 1,
    ensures
        final(text)@ == old(text)@ + escaped_char(utf16_lossy(pair@)[0]),
{
    let ghost before = text@;
    let decoded: String = String::from_utf16_lossy(pair.as_slice());
    let ghost all = decoded@;
    for c in it: decoded.as_str().chars()
        invariant
            it.seq() == all,
            all.len() == 1,
            text@ == (if it.index() == 0 {
                before
            } else {
                before + escaped_char(all[0])
            }),
    {
        let part: String = escape_char(c);
        text.append(part.as_str());
    }
}

/// Puts `units` in quotes.
pub fn quote(units: &Vec<u16>) -> (r: String)
    ensures
        r@ == quoted(units@),
{
    let mut text: String = String::new();
    text.push('"');
    let mut at: usize = 0;
    assert(units@.skip(0) =~= units@);
    assert(text@ =~= seq!['"']);
    while at < units.len()
        invariant
            at <= units@.len(),
            seq!['"'] + escaped(units@) == text@ + escaped(units@.skip(at as int)),
        decreases units@.len() - at,
    {
        let ghost left = units@.skip(at as int);
        let ghost before = text@;
        let unit: u16 = units[at];
        let high: bool = 0xd800 <= unit && unit < 0xdc00;
        let low: bool = 0xdc00 <= unit && unit < 0xe000;
        if high && at + 1 < units.len() && 0xdc00 <= units[at + 1] && units[at + 1] < 0xe000 {
            let pair: Vec<u16> = vec![unit, units[at + 1]];
            proof {
                reveal_with_fuel(utf16_lossy, 2);
                assert(pair@ =~= seq![left[0], left[1]]);
                assert(pair@.skip(2) =~= Seq::<u16>::empty());
                assert(utf16_lossy(pair@) =~= seq![surrogate_pair(left[0], left[1])]);
                assert(left.skip(2) =~= units@.skip(at + 2));
            }
            push_escaped(&mut text, &pair);
            assert(text@ + escaped(units@.skip(at + 2)) =~= before + escaped(left));
            at = at + 2;
        } else if high || low {
            text.push('\\');
            text.push('u');
            text.push('{');
            push_lower_hex(&mut text, unit / 0x1000);
            push_lower_hex(&mut text, unit / 0x100 % 16);
            push_lower_hex(&mut text, unit / 16 % 16);
            push_lower_hex(&mut text, unit % 16);
            text.push('}');
            proof {
                assert(text@ =~= before + escaped_surrogate(left[0]));
                assert(left.drop_first() =~= units@.skip(at + 1));
                assert(text@ + escaped(units@.skip(at + 1)) =~= before + escaped(left));
            }
            at = at + 1;
        } else {
            let single: Vec<u16> = vec![unit];
            proof {
                reveal_with_fuel(utf16_lossy, 2);
                assert(single@ =~= seq![left[0]]);
                assert(single@.drop_first() =~= Seq::<u16>::empty());
                assert(utf16_lossy(single@) =~= seq![left[0] as char]);
                assert(left.drop_first() =~= units@.skip(at + 1));
            }
            push_escaped(&mut text, &single);
            assert(text@ + escaped(units@.skip(at + 1)) =~= before + escaped(left));
            at = at + 1;
        }
    }
    assert(text@ + Seq::<char>::empty() =~= text@);
    text.push('"');
    assert(text@ =~= quoted(units@));
    text
}

/// The lines of the script that install the certificate `cert`.
pub open spec fn cert_lines(cert: GivenModel) -> Seq<Seq<char>> {
    seq![
        "$rootCertPath = "@ + quoted(cert.text),
        "$rootCert = New-Object System.Security.Cryptography.X509Certificates.X509Certificate2"@,
        "$rootCert.Import($rootCertPath)"@,
        "$certStore = New-Object System.Security.Cryptography.X509Certificates.X509Store(\"Root\", \"LocalMachine\")"@,
        "$certStore.Open(\"ReadWrite\")"@,
        "$certStore.Add($rootCert)"@,
        "$certStore.Close()"@,
    ]
}

/// The lines of the script: the certificate is installed, if there is one; the
/// delay passes, if there is one; then the program starts with `arguments` in
/// its environment.
pub open spec fn script_lines(script: LaunchScript, arguments: Seq<char>) -> Seq<Seq<char>> {
    let cert = match script.cert_path {
        Some(path) => cert_lines(path@),
        None => Seq::empty(),
    };
    let delay = if script.delay > 0 {
        seq!["Start-Sleep -Seconds "@ + decimal_text(script.delay as nat)]
    } else {
        Seq::empty()
    };
    cert + delay + seq![
        "$env:DYNSTALLER_ARGS = '"@ + arguments + "'"@,
        "Start-Process "@ + shown(script.program@),
    ]
}

/// `lines` with a line feed between any two of them.
pub open spec fn joined_lines(lines: Seq<Seq<char>>) -> Seq<char>
    decreases lines.len(),
{
    if lines.len() == 0 {
        Seq::empty()
    } else if lines.len() == 1 {
        lines[0]
    } else {
        joined_lines(lines.drop_last()).push('\n') + lines.last()
    }
}

/// Texts behind their views.
pub open spec fn line_views(lines: Seq<String>) -> Seq<Seq<char>> {
    lines.map_values(|line: String| line@)
}

fn join_lines(lines: &Vec<String>) -> (r: String)
    ensures
        r@ == joined_lines(line_views(lines@)),
{
    let ghost views = line_views(lines@);
    let mut text: String = String::new();
    assert(text@ =~= joined_lines(views.take(0)));
    for i in 0..lines.len()
        invariant
            views == line_views(lines@),
            text@ == joined_lines(views.take(i as int)),
    {
        proof {
            assert(views.take(i + 1).drop_last() =~= views.take(i as int));
            assert(views.take(i + 1).last() == lines@[i as int]@);
        }
        if i > 0 {
            text.push('\n');
        }
        text.append(lines[i].as_str());
        assert(text@ =~= joined_lines(views.take(i + 1)));
    }
    assert(views.take(views.len() as int) =~= views);
    text
}

fn two_parts(start: &str, end: &str) -> (r: String)
    ensures
        r@ == start@ + end@,
{
    let mut text: String = start.to_owned();
    text.append(end);
    text
}

impl LaunchScript {
    /// The text of the script, for arguments that are already text.
    pub fn text(&self, arguments: &str) -> (r: String)
        ensures
            r@ == joined_lines(script_lines(*self, arguments@)),
    {
        let mut lines: Vec<String> = Vec::new();
        assert(line_views(lines@) =~= Seq::<Seq<char>>::empty());
        if let Some(cert) = &self.cert_path {
            let quoted_path: String = quote(&cert.text);
            lines.push(two_parts("$rootCertPath = ", quoted_path.as_str()));
            lines.push(
                "$rootCert = New-Object System.Security.Cryptography.X509Certificates.X509Certificate2".to_owned(),
            );
            lines.push("$rootCert.Import($rootCertPath)".to_owned());
            lines.push(
                "$certStore = New-Object System.Security.Cryptography.X509Certificates.X509Store(\"Root\", \"LocalMachine\")".to_owned(),
            );
            lines.push("$certStore.Open(\"ReadWrite\")".to_owned());
            lines.push("$certStore.Add($rootCert)".to_owned());
            lines.push("$certStore.Close()".to_owned());
            assert(line_views(lines@) =~= cert_lines(cert@));
        }
        if self.delay > 0 {
            let seconds: String = to_decimal(self.delay);
            lines.push(two_parts("Start-Sleep -Seconds ", seconds.as_str()));
        }
        let start: String = two_parts("$env:DYNSTALLER_ARGS = '", arguments);
        lines.push(two_parts(start.as_str(), "'"));
        let program: String = show_path(&self.program);
        lines.push(two_parts("Start-Process ", program.as_str()));
        assert(line_views(lines@) =~= script_lines(*self, arguments@));
        join_lines(&lines)
    }

    /// The text of the script, for arguments that are still bytes. The program
    /// that the script starts gets the same bytes back, and what carries them
    /// holds nothing that could end the quotes around it.
    pub fn for_arguments(&self, arguments: &Vec<u8>) -> (r: String)
        requires
            is_encodable(arguments@.len()),
        ensures
            r@ == joined_lines(script_lines(*self, base64_text(arguments@))),
            base64_bytes(base64_text(arguments@)) == decoded(arguments@),
            forall|i: int|
                0 <= i < base64_text(arguments@).len() ==> is_url_safe(
                    #[trigger] base64_text(arguments@)[i],
                ),
    {
        let encoded: String = encode_arguments(arguments);
        self.text(encoded.as_str())
    }
}

/// The sandbox sees the file `from` of the host, or this program for `None`, as
/// `sandbox`: it lies in a folder that the sandbox sees, there or by a copy.
pub open spec fn arrives(
    model: PlanModel,
    from: Option<GivenModel>,
    sandbox: GivenModel,
) -> bool {
    exists|i: int, name: Seq<u16>|
        0 <= i < model.folders().len() && sandbox == #[trigger] joined_given(
            model.folders()[i].1,
            entry(name),
        ) && ({
            let host = joined_given(model.folders()[i].0, entry(name));
            from matches Some(file) && file.path == host.path || model.copies().contains(
                (from, host),
            )
        })
}

proof fn lemma_arrives(
    model: PlanModel,
    from: Option<GivenModel>,
    i: int,
    name: Seq<u16>,
)
    requires
        0 <= i < model.folders().len(),
        ({
            let host = joined_given(model.folders()[i].0, entry(name));
            from matches Some(file) && file.path == host.path || model.copies().contains(
                (from, host),
            )
        }),
    ensures
        arrives(model, from, joined_given(model.folders()[i].1, entry(name))),
{
}

/// Whatever the sandbox is told to run or to read, it gets to see: this program,
/// the executable to launch, the certificate and the Process Monitor executable
/// all lie where the sandbox is told they are. This needs the names of the
/// executables to be read as names, as plain names are.
pub proof fn the_sandbox_sees_what_it_needs(model: PlanModel)
    requires
        is_well_built(model.process),
        file_name_of(model.process) == Some(model.process_name.text),
        model.process_name == entry(model.process_name.text),
        model.procmon matches Some((_, Some(name))) ==> name == entry(name.text),
    ensures
        arrives(model, None, file_in(model.sandbox_work, GUEST_PROGRAM@)),
        arrives(model, Some(spelled(model.process)), model.sandbox_process()),
        model.cert is Some ==> arrives(model, model.cert, model.sandbox_cert()->0),
        model.procmon matches Some((procmon, _)) ==> arrives(
            model,
            Some(procmon),
            model.sandbox_procmon()->0,
        ),
{
    let copies = model.copies();
    let cert_count: int = if model.cert is Some {
        1
    } else {
        0
    };
    let procmon_count: int = if model.procmon is Some {
        1
    } else {
        0
    };
    assert(model.folders()[0] == (model.host_work, model.sandbox_work));
    assert(copies[0] == (None::<GivenModel>, file_in(model.host_work, GUEST_PROGRAM@)));
    lemma_arrives(model, None, 0, utf16(GUEST_PROGRAM@));
    if let Some(cert) = model.cert {
        let name = cert_name(cert.path);
        assert(copies[1] == (model.cert, joined_given(model.host_work, entry(name))));
        lemma_arrives(model, model.cert, 0, name);
    }
    if let Some((procmon, read_name)) = model.procmon {
        let name = procmon_name(read_name).text;
        assert(copies[1 + cert_count] == (
            Some(procmon),
            joined_given(model.host_work, entry(name)),
        ));
        lemma_arrives(model, Some(procmon), 0, name);
    }
    let name = model.process_name.text;
    if model.sandbox_shared is Some {
        let folder = parent_of(model.process)->0;
        assert(model.folders()[1] == (spelled(folder), model.sandbox_shared->0));
        lemma_last_is_joined(model.process);
        lemma_arrives(model, Some(spelled(model.process)), 1, name);
    } else {
        assert(copies[1 + cert_count + procmon_count] == (
            Some(spelled(model.process)),
            joined_given(model.host_work, entry(name)),
        ));
        lemma_arrives(model, Some(spelled(model.process)), 0, name);
    }
}

/// A file is what its name stands for in its folder.
proof fn lemma_last_is_joined(path: Seq<ComponentModel>)
    requires
        is_well_built(path),
        file_name_of(path) is Some,
    ensures
        joined(path.drop_last(), seq![path.last()]) == path,
{
    reveal_with_fuel(added_verbatim, 2);
    let base = path.drop_last();
    let other = seq![path.last()];
    assert(other.drop_last() =~= Seq::empty());
    assert(base.push(path.last()) =~= path);
    assert(base + other =~= path);
    assert(joined(base, other) =~= path);
}

} // verus!
