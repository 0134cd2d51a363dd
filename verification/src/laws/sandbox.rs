//! What a sandbox is set up with, flag by flag and folder by folder.

use vstd::prelude::*;

use crate::cli::CommandType;
use crate::given::{entry, joined_given, GivenPath};
use crate::launch::{encode_arguments, is_encodable};
use crate::laws::text::{lemma_utf16_start, text_is_decoded_piece_by_piece};
use crate::monitor::executable::file_in;
use crate::options::{HostOptions, MonitorOptions, PackerOptions};
use crate::path::{extension, extension_of, file_name_of, WinPath};
use crate::text::{decimal_text, surrogate_pair, utf16, utf16_keeps_text, utf16_lossy};
use crate::utils::is_temp_name;
use crate::wsb::{
    cert_lines, cert_name, escaped, escaped_char, escaped_surrogate, is_plan, joined_lines,
    lower_hex_digit, plan_model, quote, quoted, root_folder, script_lines, show_path, volume_root,
    CopySource, HostError, HostFacts, HostPlan, Hoster, LaunchScript, OptionValue,
};

verus! {

/// The settings of a sandbox follow from the flags, each from its own: a flag
/// changes its setting whatever the other flags are, and no other setting. What no
/// flag is about is left to the sandbox.
pub proof fn each_flag_has_its_setting(
    options: HostOptions,
    monitor_options: MonitorOptions,
    packer_options: PackerOptions,
    facts: HostFacts,
    work_name: &str,
    shared_name: &str,
    r: Result<HostPlan, HostError>,
)
    requires
        call_ensures(
            Hoster::plan,
            (options, monitor_options, packer_options, facts, work_name, shared_name),
            r,
        ),
    ensures
        r matches Ok(plan) ==> {
            let c = plan.hoster.wsb_configuration;
            &&& options.no_network ==> c.networking == OptionValue::Disable
            &&& !options.no_network ==> c.networking == OptionValue::Default
            &&& options.no_vgpu ==> c.vgpu == OptionValue::Disable
            &&& !options.no_vgpu ==> c.vgpu == OptionValue::Default
            &&& options.isolated ==> c.protected_client == OptionValue::Enable
            &&& !options.isolated ==> c.protected_client == OptionValue::Default
            &&& c.memory_in_mb == options.memory
            &&& c.audio_input == OptionValue::Default
            &&& c.video_input == OptionValue::Default
            &&& c.printer_redirection == OptionValue::Default
            &&& c.clipboard_redirection == OptionValue::Default
        },
{
}

/// Of two plans whose flags for the network agree, both have the network or
/// neither has it, and so for the graphics and for the isolation.
pub proof fn settings_do_not_hang_on_other_flags(
    options: HostOptions,
    other_options: HostOptions,
    monitor_options: MonitorOptions,
    packer_options: PackerOptions,
    facts: HostFacts,
    work_name: &str,
    shared_name: &str,
    r: Result<HostPlan, HostError>,
    s: Result<HostPlan, HostError>,
)
    requires
        call_ensures(
            Hoster::plan,
            (options, monitor_options, packer_options, facts, work_name, shared_name),
            r,
        ),
        call_ensures(
            Hoster::plan,
            (other_options, monitor_options, packer_options, facts, work_name, shared_name),
            s,
        ),
    ensures
        r is Ok <==> s is Ok,
        (r matches Ok(plan) && (s matches Ok(other) && ({
            let c = plan.hoster.wsb_configuration;
            let d = other.hoster.wsb_configuration;
            ||| options.no_network == other_options.no_network && c.networking != d.networking
            ||| options.no_vgpu == other_options.no_vgpu && c.vgpu != d.vgpu
            ||| options.isolated == other_options.isolated && c.protected_client
                != d.protected_client
            ||| options.memory == other_options.memory && c.memory_in_mb != d.memory_in_mb
        }))) ==> false,
{
    each_flag_has_its_setting(
        options,
        monitor_options,
        packer_options,
        facts,
        work_name,
        shared_name,
        r,
    );
    each_flag_has_its_setting(
        other_options,
        monitor_options,
        packer_options,
        facts,
        work_name,
        shared_name,
        s,
    );
}

/// A sandbox can be prepared exactly if the executable to launch has a name.
pub proof fn the_executable_needs_a_name(
    options: HostOptions,
    monitor_options: MonitorOptions,
    packer_options: PackerOptions,
    facts: HostFacts,
    work_name: &str,
    shared_name: &str,
    r: Result<HostPlan, HostError>,
    name: Option<Vec<u16>>,
)
    requires
        call_ensures(
            Hoster::plan,
            (options, monitor_options, packer_options, facts, work_name, shared_name),
            r,
        ),
        call_ensures(WinPath::file_name, (&facts.process,), name),
    ensures
        r is Ok <==> name is Some,
        r matches Err(e) ==> e == HostError::NoFileName,
{
}

/// The name consists of letters of the English alphabet.
pub open spec fn is_word(name: Seq<char>) -> bool {
    name.len() > 0 && forall|i: int|
        0 <= i < name.len() ==> 'a' <= #[trigger] name[i] <= 'z' || 'A' <= name[i] <= 'Z'
}

proof fn lemma_word(name: Seq<char>)
    requires
        is_word(name),
    ensures
        utf16(name).len() > 0,
        utf16(name).last() != 0x5c,
        utf16(name).last() != 0x2f,
{
    let c = name[name.len() - 1];
    assert(c == name.last());
    assert('a' <= c <= 'z' || 'A' <= c <= 'Z');
}

proof fn lemma_root_folder(name: Seq<char>)
    requires
        is_word(name),
    ensures
        utf16_lossy(root_folder(name).text) == "C:\\"@ + name,
        root_folder(name).text.len() > 0,
        root_folder(name).text.last() == utf16(name).last(),
        root_folder(name).path.len() == 3,
        root_folder(name).path[0] == volume_root().path[0],
{
    lemma_word(name);
    let start: Seq<u16> = seq![0x43u16, 0x3a, 0x5c];
    assert(volume_root().text =~= start);
    assert(root_folder(name).text =~= start + utf16(name));
    lemma_utf16_start(name);
    text_is_decoded_piece_by_piece(start, utf16(name));
    utf16_keeps_text(name);
    reveal_with_fuel(utf16_lossy, 4);
    reveal_strlit("C:\\");
    assert(start.drop_first() =~= seq![0x3au16, 0x5c]);
    assert(seq![0x3au16, 0x5c].drop_first() =~= seq![0x5cu16]);
    assert(seq![0x5cu16].drop_first() =~= Seq::<u16>::empty());
    assert(utf16_lossy(start) =~= "C:\\"@);
}

proof fn lemma_file_in_root_folder(name: Seq<char>, file: Seq<char>)
    requires
        is_word(name),
    ensures
        utf16_lossy(file_in(root_folder(name), file).text) == "C:\\"@ + name + "\\"@ + file,
{
    lemma_root_folder(name);
    lemma_word(name);
    let folder = root_folder(name).text;
    let separator: Seq<u16> = seq![0x5cu16];
    assert(file_in(root_folder(name), file).text =~= folder + separator + utf16(file));
    lemma_utf16_start(file);
    text_is_decoded_piece_by_piece(folder + separator, utf16(file));
    text_is_decoded_piece_by_piece(folder, separator);
    utf16_keeps_text(file);
    crate::laws::text::lemma_one_unit(0x5c);
    reveal_strlit("\\");
    assert(seq![0x5cu16 as char] =~= "\\"@);
}

/// The sandbox sees the work folder of the host in the root of its volume C, for
/// writing. It sees the folder of the executable there too exactly if it is shared,
/// and for writing exactly if that is allowed. It starts the script that lies in
/// the work folder.
pub proof fn the_sandbox_sees_its_folders(
    options: HostOptions,
    monitor_options: MonitorOptions,
    packer_options: PackerOptions,
    facts: HostFacts,
    work_name: &str,
    shared_name: &str,
    r: Result<HostPlan, HostError>,
)
    requires
        call_ensures(
            Hoster::plan,
            (options, monitor_options, packer_options, facts, work_name, shared_name),
            r,
        ),
        is_word(work_name@),
        is_word(shared_name@),
    ensures
        r matches Ok(plan) ==> {
            let folders = plan.hoster.wsb_configuration.mapped_folders.mapped_folders@;
            &&& folders.len() == if options.share_process_folder {
                2int
            } else {
                1int
            }
            &&& folders[0].host_folder@ == utf16_lossy(facts.work_folder.text@)
            &&& folders[0].sandbox_folder@ == "C:\\"@ + work_name@
            &&& !folders[0].read_only
            &&& options.share_process_folder ==> {
                &&& folders[1].sandbox_folder@ == "C:\\"@ + shared_name@
                &&& folders[1].read_only <==> !options.writable_process_folder
                &&& forall|folder: WinPath, text: Vec<u16>|
                    call_ensures(WinPath::parent, (&facts.process,), Some(folder))
                        && #[trigger] call_ensures(WinPath::to_units, (&folder,), text)
                        ==> folders[1].host_folder@ == utf16_lossy(text@)
            }
            &&& plan.hoster.wsb_configuration.logon_command.command@
                == "powershell.exe -ExecutionPolicy Bypass -NoProfile -File "@ + ("C:\\"@
                + work_name@ + "\\"@ + "launch.ps1"@)
        },
{
    if let Ok(plan) = r {
        lemma_root_folder(work_name@);
        lemma_root_folder(shared_name@);
        lemma_file_in_root_folder(work_name@, "launch.ps1"@);
        let model = plan_model(options, facts, work_name@, shared_name@);
        let folders = plan.hoster.wsb_configuration.mapped_folders.mapped_folders@;
        assert(model.folders()[0] == (model.host_work, model.sandbox_work));
        assert(folders[0].host_folder@ == utf16_lossy(facts.work_folder.text@));
        if options.share_process_folder {
            assert(folders[1].sandbox_folder@ == utf16_lossy(root_folder(shared_name@).text));
        }
    }
}

/// What is copied goes to the work folder: this program under its own name; the
/// certificate, if there is one; the Process Monitor executable, if there is one,
/// under the name that it has; and the executable to launch under its name, unless
/// its folder is shared.
pub proof fn what_is_needed_is_copied_to_the_work_folder(
    options: HostOptions,
    monitor_options: MonitorOptions,
    packer_options: PackerOptions,
    facts: HostFacts,
    work_name: &str,
    shared_name: &str,
    r: Result<HostPlan, HostError>,
    name: &GivenPath,
    target: GivenPath,
)
    requires
        call_ensures(
            Hoster::plan,
            (options, monitor_options, packer_options, facts, work_name, shared_name),
            r,
        ),
        call_ensures(GivenPath::join, (&facts.work_folder, name), target),
    ensures
        r matches Ok(plan) ==> {
            let copies = plan.copies@;
            let certs: int = if options.cert_path is Some {
                1
            } else {
                0
            };
            let procmons: int = if facts.procmon is Some {
                1
            } else {
                0
            };
            let processes: int = if options.share_process_folder {
                0
            } else {
                1
            };
            &&& copies.len() == 1 + certs + procmons + processes
            &&& copies[0].from is Program
            &&& name@ == entry(utf16("dynstaller.exe"@)) ==> copies[0].to@ == target@
            &&& options.cert_path matches Some(cert) ==> (
            copies[1].from matches CopySource::File(from) && from@ == cert@)
            &&& (facts.procmon matches Some(file) ==> {
                &&& copies[1 + certs].from matches CopySource::File(from) && from@ == file.path@
                &&& (file.name matches Some(n) && n@ == name@) ==> copies[1 + certs].to@ == target@
                &&& file.name is None && name@ == entry(utf16("Procmon.exe"@)) ==> copies[1
                    + certs].to@ == target@
            })
            &&& !options.share_process_folder ==> {
                let last = copies[1 + certs + procmons];
                &&& last.from matches CopySource::File(from) && from.path@ == facts.process@
                &&& (facts.process_name matches Some(n) && n@ == name@) ==> last.to@ == target@
            }
        },
{
    if let Ok(plan) = r {
        let model = plan_model(options, facts, work_name@, shared_name@);
        let certs: int = if options.cert_path is Some {
            1
        } else {
            0
        };
        let procmons: int = if facts.procmon is Some {
            1
        } else {
            0
        };
        let expected = model.copies();
        assert(expected[0].0 is None);
        assert(expected[0].1 == file_in(model.host_work, "dynstaller.exe"@));
        assert(crate::wsb::is_copy(plan.copies@[0], expected[0].0, expected[0].1));
        if let Some(cert) = options.cert_path {
            assert(expected[1].0 == Some(cert@));
            assert(crate::wsb::is_copy(plan.copies@[1], expected[1].0, expected[1].1));
        }
        if let Some(file) = facts.procmon {
            assert(expected[1 + certs].0 == Some(file.path@));
            assert(crate::wsb::is_copy(
                plan.copies@[1 + certs],
                expected[1 + certs].0,
                expected[1 + certs].1,
            ));
        }
        if !options.share_process_folder {
            let at = 1 + certs + procmons;
            assert(expected[at].0 == Some(crate::given::spelled(facts.process@)));
            assert(crate::wsb::is_copy(plan.copies@[at], expected[at].0, expected[at].1));
        }
    }
}

/// The program in the sandbox is told to launch the executable where it lies there,
/// with its arguments, to shut the sandbox down in the end, and to leave a new
/// archive in the work folder. What to monitor and the limit stay as they are.
pub proof fn the_guest_is_told_what_the_host_was(
    options: HostOptions,
    monitor_options: MonitorOptions,
    packer_options: PackerOptions,
    facts: HostFacts,
    work_name: &str,
    shared_name: &str,
    r: Result<HostPlan, HostError>,
    file: Seq<char>,
)
    requires
        call_ensures(
            Hoster::plan,
            (options, monitor_options, packer_options, facts, work_name, shared_name),
            r,
        ),
        is_word(work_name@),
        is_word(shared_name@),
        facts.process_name matches Some(n) && n@ == entry(utf16(file)),
    ensures
        r matches Ok(plan) ==> {
            let guest = plan.guest;
            &&& guest.command matches CommandType::GuestLaunch(launch) && launch.args
                == options.launch_options.args && launch.no_children
                == options.launch_options.no_children && launch.shutdown_on_exit && utf16_lossy(
                launch.process.text@,
            ) == "C:\\"@ + (if options.share_process_folder {
                shared_name@
            } else {
                work_name@
            }) + "\\"@ + file
            &&& guest.monitor_options.method == monitor_options.method
            &&& guest.monitor_options.path == monitor_options.path
            &&& guest.monitor_options.creation == monitor_options.creation
            &&& guest.monitor_options.deletion == monitor_options.deletion
            &&& guest.monitor_options.modification == monitor_options.modification
            &&& guest.monitor_options.renaming == monitor_options.renaming
            &&& guest.monitor_options.add_registry == monitor_options.add_registry
            &&& guest.monitor_options.procmon_path is Some <==> facts.procmon is Some
            &&& forall|name: Seq<char>|
                (facts.procmon matches Some(f) && (f.name matches Some(n) && n@ == entry(
                    #[trigger] utf16(name),
                ))) ==> (guest.monitor_options.procmon_path matches Some(p) && utf16_lossy(p.text@)
                    == "C:\\"@ + work_name@ + "\\"@ + name)
            &&& utf16_lossy(guest.packer_options.output.text@) == "C:\\"@ + work_name@ + "\\"@
                + "output.zip"@
            &&& !guest.packer_options.overwrite
            &&& guest.packer_options.size_limit == packer_options.size_limit
            &&& plan.hoster.packer_output == packer_options.output
            &&& plan.hoster.host_work_folder@ == facts.work_folder@
            &&& plan.script.delay == options.delay
            &&& plan.script.cert_path is Some <==> options.cert_path is Some
            &&& utf16_lossy(plan.script.program.text@) == "C:\\"@ + work_name@ + "\\"@
                + "dynstaller.exe"@
        },
{
    if let Ok(plan) = r {
        lemma_file_in_root_folder(work_name@, file);
        lemma_file_in_root_folder(shared_name@, file);
        lemma_file_in_root_folder(work_name@, "output.zip"@);
        lemma_file_in_root_folder(work_name@, "dynstaller.exe"@);
        assert forall|name: Seq<char>|
            (facts.procmon matches Some(f) && (f.name matches Some(n) && n@ == entry(
                #[trigger] utf16(name),
            ))) implies (plan.guest.monitor_options.procmon_path matches Some(p) && utf16_lossy(
            p.text@,
        ) == "C:\\"@ + work_name@ + "\\"@ + name) by {
            lemma_file_in_root_folder(work_name@, name);
        }
    }
}

proof fn lemma_first_line(first: Seq<char>, rest: Seq<Seq<char>>)
    requires
        rest.len() > 0,
    ensures
        joined_lines(seq![first] + rest) == first + seq!['\n'] + joined_lines(rest),
    decreases rest.len(),
{
    let all = seq![first] + rest;
    assert(all.last() == rest.last());
    if rest.len() == 1 {
        assert(all.drop_last() =~= seq![first]);
        assert(joined_lines(seq![first]) == first);
        assert(rest[0] == rest.last());
        assert(joined_lines(all) =~= first + seq!['\n'] + joined_lines(rest));
    } else {
        lemma_first_line(first, rest.drop_last());
        assert(all.drop_last() =~= seq![first] + rest.drop_last());
        assert(joined_lines(all) =~= first + seq!['\n'] + joined_lines(rest));
    }
}

/// The script ends by handing the arguments over and starting the program. Before
/// that it waits for the delay, if there is one, and before that it installs the
/// certificate, if there is one.
pub proof fn the_script_does_one_thing_after_the_other(
    script: &LaunchScript,
    arguments: &str,
    r: String,
)
    requires
        call_ensures(LaunchScript::text, (script, arguments), r),
    ensures
        ({
            let start = "$env:DYNSTALLER_ARGS = '"@ + arguments@ + "'"@ + seq!['\n']
                + ("Start-Process "@ + utf16_lossy(script.program.text@));
            let delayed = if script.delay > 0 {
                "Start-Sleep -Seconds "@ + decimal_text(script.delay as nat) + seq!['\n'] + start
            } else {
                start
            };
            match script.cert_path {
                None => r@ == delayed,
                Some(cert) => r@ == "$rootCertPath = "@ + quoted(cert.text@) + seq!['\n']
                    + ("$rootCert = New-Object System.Security.Cryptography.X509Certificates.X509Certificate2"@
                    + seq!['\n'] + ("$rootCert.Import($rootCertPath)"@ + seq!['\n']
                    + ("$certStore = New-Object System.Security.Cryptography.X509Certificates.X509Store(\"Root\", \"LocalMachine\")"@
                    + seq!['\n'] + ("$certStore.Open(\"ReadWrite\")"@ + seq!['\n']
                    + ("$certStore.Add($rootCert)"@ + seq!['\n'] + ("$certStore.Close()"@
                    + seq!['\n'] + delayed)))))),
            }
        }),
{
    let lines = script_lines(*script, arguments@);
    let first = "$env:DYNSTALLER_ARGS = '"@ + arguments@ + "'"@;
    let last = "Start-Process "@ + utf16_lossy(script.program.text@);
    let start = seq![first, last];
    assert(start =~= seq![first] + seq![last]);
    lemma_first_line(first, seq![last]);
    let delayed = if script.delay > 0 {
        let wait = "Start-Sleep -Seconds "@ + decimal_text(script.delay as nat);
        lemma_first_line(wait, start);
        seq![wait] + start
    } else {
        start
    };
    if let Some(cert) = script.cert_path {
        let c = cert_lines(cert@);
        let l6 = seq![c[6]] + delayed;
        let l5 = seq![c[5]] + l6;
        let l4 = seq![c[4]] + l5;
        let l3 = seq![c[3]] + l4;
        let l2 = seq![c[2]] + l3;
        let l1 = seq![c[1]] + l2;
        let l0 = seq![c[0]] + l1;
        lemma_first_line(c[6], delayed);
        lemma_first_line(c[5], l6);
        lemma_first_line(c[4], l5);
        lemma_first_line(c[3], l4);
        lemma_first_line(c[2], l3);
        lemma_first_line(c[1], l2);
        lemma_first_line(c[0], l1);
        assert(lines =~= l0);
    } else {
        assert(lines =~= delayed);
    }
}

/// The name under which a certificate with the extension `ext` is copied.
pub open spec fn kept_extension(ext: Option<Vec<u16>>) -> Seq<u16> {
    match ext {
        None => utf16("cert"@) + seq![0x2eu16] + utf16("cer"@),
        Some(e) => if e@.len() == 0 {
            utf16("cert"@)
        } else {
            utf16("cert"@) + seq![0x2eu16] + e@
        },
    }
}

/// A certificate is copied to the work folder with the extension that it has, and
/// the script is told to install it from there.
pub proof fn a_certificate_keeps_its_extension(
    options: HostOptions,
    monitor_options: MonitorOptions,
    packer_options: PackerOptions,
    facts: HostFacts,
    work_name: &str,
    shared_name: &str,
    r: Result<HostPlan, HostError>,
    name: Vec<u16>,
    ext: Option<Vec<u16>>,
    copied: &GivenPath,
    target: GivenPath,
)
    requires
        call_ensures(
            Hoster::plan,
            (options, monitor_options, packer_options, facts, work_name, shared_name),
            r,
        ),
        is_word(work_name@),
        options.cert_path is Some,
        call_ensures(WinPath::file_name, (&options.cert_path->0.path,), Some(name)),
        call_ensures(extension, (&name,), ext),
        copied@ == entry(kept_extension(ext)),
        call_ensures(GivenPath::join, (&facts.work_folder, copied), target),
    ensures
        r matches Ok(plan) ==> {
            &&& plan.copies@[1].to@ == target@
            &&& plan.script.cert_path matches Some(cert) && utf16_lossy(cert.text@) == "C:\\"@
                + work_name@ + "\\"@ + utf16_lossy(kept_extension(ext))
        },
{
    if let Ok(plan) = r {
        let cert = options.cert_path->0;
        let units = kept_extension(ext);
        assert(file_name_of(cert.path@) == Some(name@));
        match ext {
            Some(e) => {
                assert(extension_of(name@) == Some(e@));
                assert(utf16("cert"@).push(0x2e) + e@ =~= utf16("cert"@) + seq![0x2eu16] + e@);
            },
            None => {
                assert(extension_of(name@) is None);
                assert(utf16("cert"@).push(0x2e) + utf16("cer"@) =~= units);
                lemma_utf16_start("cer"@);
                reveal_strlit("cer");
                assert(utf16("cer"@).len() > 0);
            },
        }
        assert(cert_name(cert.path@) == units);
        let model = plan_model(options, facts, work_name@, shared_name@);
        let expected = model.copies();
        assert(expected[1].1 == joined_given(model.host_work, entry(units)));
        assert(crate::wsb::is_copy(plan.copies@[1], expected[1].0, expected[1].1));
        lemma_root_folder(work_name@);
        lemma_word(work_name@);
        let folder = root_folder(work_name@).text;
        let separator: Seq<u16> = seq![0x5cu16];
        assert(joined_given(root_folder(work_name@), entry(units)).text =~= folder + separator
            + units);
        lemma_utf16_start("cert"@);
        reveal_strlit("cert");
        assert(utf16("cert"@).len() > 0);
        assert(units[0] == utf16("cert"@)[0]);
        text_is_decoded_piece_by_piece(folder + separator, units);
        text_is_decoded_piece_by_piece(folder, separator);
        crate::laws::text::lemma_one_unit(0x5c);
        reveal_strlit("\\");
        assert(seq![0x5cu16 as char] =~= "\\"@);
    }
}

/// The folders in the sandbox get names of ten letters, and all else is as it would
/// be planned for those names.
pub proof fn the_folders_get_made_up_names(
    options: HostOptions,
    monitor_options: MonitorOptions,
    packer_options: PackerOptions,
    facts: HostFacts,
    r: Result<HostPlan, HostError>,
    name: Option<Vec<u16>>,
)
    requires
        call_ensures(Hoster::new, (options, monitor_options, packer_options, facts), r),
        call_ensures(WinPath::file_name, (&facts.process,), name),
    ensures
        r is Ok <==> name is Some,
        r matches Err(e) ==> e == HostError::NoFileName,
        r matches Ok(plan) ==> exists|work_name: Seq<char>, shared_name: Seq<char>|
            {
                let c = plan.hoster.wsb_configuration;
                let folders = c.mapped_folders.mapped_folders@;
                &&& #[trigger] is_word(work_name)
                &&& #[trigger] is_word(shared_name)
                &&& work_name.len() == 10
                &&& shared_name.len() == 10
                &&& folders[0].sandbox_folder@ == "C:\\"@ + work_name
                &&& options.share_process_folder ==> folders[1].sandbox_folder@ == "C:\\"@
                    + shared_name
                &&& utf16_lossy(plan.script.program.text@) == "C:\\"@ + work_name + "\\"@
                    + "dynstaller.exe"@
                &&& c.networking == OptionValue::Disable <==> options.no_network
                &&& c.vgpu == OptionValue::Disable <==> options.no_vgpu
                &&& c.protected_client == OptionValue::Enable <==> options.isolated
                &&& c.memory_in_mb == options.memory
            },
{
    if let Ok(plan) = r {
        let (work_name, shared_name) = choose|work_name: Seq<char>, shared_name: Seq<char>|
            is_temp_name(work_name) && is_temp_name(shared_name) && is_plan(
                plan,
                options,
                monitor_options,
                packer_options,
                #[trigger] plan_model(options, facts, work_name, shared_name),
            );
        assert(is_word(work_name));
        assert(is_word(shared_name));
        lemma_root_folder(work_name);
        lemma_root_folder(shared_name);
        lemma_file_in_root_folder(work_name, "dynstaller.exe"@);
        let model = plan_model(options, facts, work_name, shared_name);
        let folders = plan.hoster.wsb_configuration.mapped_folders.mapped_folders@;
        assert(folders[0].sandbox_folder@ == utf16_lossy(model.folders()[0].1.text));
        if options.share_process_folder {
            assert(folders[1].sandbox_folder@ == utf16_lossy(model.folders()[1].1.text));
        }
    }
}

/// The archive of the sandbox and its script lie in the work folder of the host.
pub proof fn the_host_finds_archive_and_script_in_the_work_folder(
    hoster: &Hoster,
    output: GivenPath,
    script: GivenPath,
    output_name: &GivenPath,
    script_name: &GivenPath,
    output_path: GivenPath,
    script_path: GivenPath,
)
    requires
        call_ensures(Hoster::sandbox_output, (hoster,), output),
        call_ensures(Hoster::script_path, (hoster,), script),
        output_name@ == entry(utf16("output.zip"@)),
        script_name@ == entry(utf16("launch.ps1"@)),
        call_ensures(GivenPath::join, (&hoster.host_work_folder, output_name), output_path),
        call_ensures(GivenPath::join, (&hoster.host_work_folder, script_name), script_path),
    ensures
        output@ == output_path@,
        script@ == script_path@,
{
}

/// The value of a hexadecimal digit in lower case.
pub open spec fn digit_value(c: char) -> int {
    if '0' <= c <= '9' {
        c as int - '0' as int
    } else {
        c as int - 'a' as int + 10
    }
}

/// Text is quoted character after character: what stands first is escaped alone,
/// and the rest as if nothing stood before it. Half a pair is written as the number
/// that it is, in four digits of the hexadecimal system.
pub proof fn text_is_quoted_character_after_character(
    units: &Vec<u16>,
    rest: &Vec<u16>,
    r: String,
    s: String,
    empty: &Vec<u16>,
    t: String,
)
    requires
        call_ensures(quote, (units,), r),
        call_ensures(quote, (rest,), s),
        call_ensures(quote, (empty,), t),
        empty@.len() == 0,
    ensures
        t@ == seq!['"', '"'],
        units@.len() > 0 && !(0xd800 <= units@[0] < 0xe000) && rest@ == units@.skip(1) ==> r@
            == seq!['"'] + escaped_char(units@[0] as char) + s@.skip(1),
        units@.len() > 1 && 0xd800 <= units@[0] < 0xdc00 && 0xdc00 <= units@[1] < 0xe000 && rest@
            == units@.skip(2) ==> r@ == seq!['"'] + escaped_char(
            (0x10000 + (units@[0] - 0xd800) * 0x400 + (units@[1] - 0xdc00)) as char,
        ) + s@.skip(1),
        units@.len() > 0 && rest@ == units@.skip(1) && (0xdc00 <= units@[0] < 0xe000 || (0xd800
            <= units@[0] < 0xdc00 && (units@.len() == 1 || !(0xdc00 <= units@[1] < 0xe000)))) ==> {
            &&& r@.len() > 9
            &&& r@.take(4) == seq!['"', '\\', 'u', '{']
            &&& r@[8] == '}'
            &&& digit_value(r@[4]) * 0x1000 + digit_value(r@[5]) * 0x100 + digit_value(r@[6]) * 16
                + digit_value(r@[7]) == units@[0]
            &&& forall|i: int|
                4 <= i < 8 ==> '0' <= #[trigger] r@[i] <= '9' || 'a' <= r@[i] <= 'f'
            &&& r@.skip(9) == s@.skip(1)
        },
{
    assert(t@ =~= seq!['"', '"']);
    assert(s@.skip(1) =~= escaped(rest@) + seq!['"']);
    if units@.len() > 0 {
        let u = units@[0];
        assert(units@.drop_first() =~= units@.skip(1));
        if rest@ == units@.skip(1) && !(0xd800 <= u < 0xe000) {
            assert(r@ =~= seq!['"'] + escaped_char(u as char) + s@.skip(1));
        }
        if units@.len() > 1 && 0xd800 <= u < 0xdc00 && 0xdc00 <= units@[1] < 0xe000 && rest@
            == units@.skip(2) {
            assert(r@ =~= seq!['"'] + escaped_char(surrogate_pair(u, units@[1])) + s@.skip(1));
        }
        if rest@ == units@.skip(1) && (0xdc00 <= u < 0xe000 || (0xd800 <= u < 0xdc00 && (
        units@.len() == 1 || !(0xdc00 <= units@[1] < 0xe000)))) {
            let text = escaped_surrogate(u);
            assert(r@ =~= seq!['"'] + text + s@.skip(1));
            lemma_digit(u as int / 0x1000);
            lemma_digit(u as int / 0x100 % 16);
            lemma_digit(u as int / 16 % 16);
            lemma_digit(u as int % 16);
            assert(r@[4] == text[3] && r@[5] == text[4] && r@[6] == text[5] && r@[7] == text[6]);
            assert(r@.take(4) =~= seq!['"', '\\', 'u', '{']);
            assert(r@.skip(9) =~= s@.skip(1));
        }
    }
}

proof fn lemma_digit(n: int)
    requires
        0 <= n < 16,
    ensures
        digit_value(lower_hex_digit(n)) == n,
        '0' <= lower_hex_digit(n) <= '9' || 'a' <= lower_hex_digit(n) <= 'f',
{
}

/// The script carries the arguments as text from which the guest gets them back.
pub proof fn the_script_carries_the_arguments(
    script: &LaunchScript,
    arguments: &Vec<u8>,
    r: String,
    encoded: String,
    carried: &str,
    s: String,
)
    requires
        is_encodable(arguments@.len()),
        call_ensures(LaunchScript::for_arguments, (script, arguments), r),
        call_ensures(encode_arguments, (arguments,), encoded),
        carried@ == encoded@,
        call_ensures(LaunchScript::text, (script, carried), s),
    ensures
        r@ == s@,
{
}

/// A path is shown as its text.
pub proof fn paths_are_shown_as_they_are_spelled(path: &GivenPath, r: String)
    requires
        call_ensures(show_path, (path,), r),
    ensures
        r@ == utf16_lossy(path.text@),
{
}

} // verus!
