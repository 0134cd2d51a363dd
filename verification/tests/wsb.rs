use dynstaller::cli::CommandType;
use dynstaller::given::GivenPath;
use dynstaller::launch::decode_arguments;
use dynstaller::options::{
    HostOptions, LaunchOptions, MonitorMethod, MonitorOptions, PackerOptions,
};
use dynstaller::path::{PathComponent, PathPrefix, WinPath};
use dynstaller::text::encode_utf16;
use dynstaller::wsb::{
    quote, Configuration, CopySource, HostError, HostFacts, HostFile, HostPlan, Hoster, LaunchScript,
    OptionValue,
};

fn on_disk(letter: u8, names: &[&str]) -> WinPath {
    let mut components = vec![
        PathComponent::Prefix(PathPrefix::disk(letter)),
        PathComponent::RootDir,
    ];
    for name in names {
        components.push(PathComponent::Normal(encode_utf16(name)));
    }
    WinPath { components }
}

fn given(letter: u8, names: &[&str]) -> GivenPath {
    GivenPath::of(on_disk(letter, names))
}

fn shown(path: &GivenPath) -> String {
    String::from_utf16_lossy(&path.text)
}

/// The name of a file, where it is plain.
fn plain_name(path: &WinPath) -> Option<GivenPath> {
    path.file_name().map(GivenPath::entry)
}

fn host_options() -> HostOptions {
    HostOptions {
        launch_options: LaunchOptions {
            process: given(b'D', &["setup.exe"]),
            args: vec!["/S".to_string()],
            no_children: true,
            shutdown_on_exit: false,
        },
        share_process_folder: false,
        writable_process_folder: false,
        cert_path: None,
        delay: 5,
        no_vgpu: false,
        no_network: false,
        isolated: false,
        memory: None,
    }
}

fn monitor_options(method: MonitorMethod) -> MonitorOptions {
    MonitorOptions {
        method,
        path: given(b'C', &[]),
        creation: true,
        deletion: false,
        modification: true,
        renaming: false,
        add_registry: true,
        procmon_path: Some(given(b'Z', &["elsewhere.exe"])),
    }
}

fn packer_options() -> PackerOptions {
    PackerOptions { output: given(b'H', &["result.zip"]), overwrite: true, size_limit: 99 }
}

fn facts(procmon_path: Option<WinPath>) -> HostFacts {
    let process = on_disk(b'H', &["dir", "setup.exe"]);
    HostFacts {
        work_folder: given(b'H', &["work"]),
        procmon: procmon_path.map(|path| {
            let name = plain_name(&path);
            HostFile { path: GivenPath::of(path), name }
        }),
        process_name: plain_name(&process),
        process,
    }
}

fn plan(options: HostOptions) -> HostPlan {
    Hoster::plan(
        options,
        monitor_options(MonitorMethod::Usn),
        packer_options(),
        facts(None),
        "Work",
        "Shared",
    )
    .ok()
    .unwrap()
}

fn launched(plan: &HostPlan) -> &LaunchOptions {
    match &plan.guest.command {
        CommandType::GuestLaunch(launch) => launch,
        _ => panic!("nothing is launched"),
    }
}

fn copies(plan: &HostPlan) -> Vec<(String, String)> {
    plan.copies
        .iter()
        .map(|copy| {
            let from = match &copy.from {
                CopySource::Program => "program".to_string(),
                CopySource::File(path) => shown(path),
            };
            (from, shown(&copy.to))
        })
        .collect()
}

fn pair(from: &str, to: &str) -> (String, String) {
    (from.to_string(), to.to_string())
}

#[test]
fn the_process_is_copied_to_the_work_folder() {
    let p = plan(host_options());
    assert_eq!(
        copies(&p),
        vec![
            pair("program", "H:\\work\\dynstaller.exe"),
            pair("H:\\dir\\setup.exe", "H:\\work\\setup.exe"),
        ]
    );
    let folders = &p.hoster.wsb_configuration.mapped_folders.mapped_folders;
    assert_eq!(folders.len(), 1);
    assert_eq!(folders[0].host_folder, "H:\\work");
    assert_eq!(folders[0].sandbox_folder, "C:\\Work");
    assert!(!folders[0].read_only);
    assert_eq!(shown(&launched(&p).process), "C:\\Work\\setup.exe");
}

#[test]
fn the_work_folder_keeps_its_spelling() {
    let work_folder = GivenPath { text: encode_utf16("H:/work"), path: on_disk(b'H', &["work"]) };
    let p = Hoster::plan(
        host_options(),
        monitor_options(MonitorMethod::Usn),
        packer_options(),
        HostFacts { work_folder, ..facts(None) },
        "Work",
        "Shared",
    )
    .ok()
    .unwrap();
    let folders = &p.hoster.wsb_configuration.mapped_folders.mapped_folders;
    assert_eq!(folders[0].host_folder, "H:/work");
    assert_eq!(copies(&p)[1], pair("H:\\dir\\setup.exe", "H:/work\\setup.exe"));
    assert_eq!(shown(&p.hoster.sandbox_output()), "H:/work\\output.zip");
}

#[test]
fn a_process_with_a_name_like_a_volume_leaves_the_folders() {
    let name = WinPath {
        components: vec![
            PathComponent::Prefix(PathPrefix::disk(b'A')),
            PathComponent::Normal(encode_utf16("b")),
        ],
    };
    let odd = HostFacts {
        process: on_disk(b'H', &["dir", "A:b"]),
        process_name: Some(GivenPath { text: encode_utf16("A:b"), path: name }),
        ..facts(None)
    };
    let p = Hoster::plan(
        host_options(),
        monitor_options(MonitorMethod::Usn),
        packer_options(),
        odd,
        "Work",
        "Shared",
    )
    .ok()
    .unwrap();
    assert_eq!(copies(&p)[1], pair("H:\\dir\\A:b", "A:b"));
    assert_eq!(shown(&launched(&p).process), "A:b");
}

#[test]
fn the_folder_of_the_process_can_be_shared() {
    let p = plan(HostOptions { share_process_folder: true, ..host_options() });
    assert_eq!(copies(&p), vec![pair("program", "H:\\work\\dynstaller.exe")]);
    let folders = &p.hoster.wsb_configuration.mapped_folders.mapped_folders;
    assert_eq!(folders.len(), 2);
    assert_eq!(folders[1].host_folder, "H:\\dir");
    assert_eq!(folders[1].sandbox_folder, "C:\\Shared");
    assert!(folders[1].read_only);
    assert_eq!(shown(&launched(&p).process), "C:\\Shared\\setup.exe");
    let writable = plan(HostOptions {
        share_process_folder: true,
        writable_process_folder: true,
        ..host_options()
    });
    assert!(!writable.hoster.wsb_configuration.mapped_folders.mapped_folders[1].read_only);
}

#[test]
fn a_certificate_keeps_its_extension() {
    for (name, expected) in
        [("root.pem", "cert.pem"), ("root", "cert.cer"), ("root.", "cert"), (".pem", "cert.cer")]
    {
        let p = plan(HostOptions { cert_path: Some(given(b'K', &[name])), ..host_options() });
        assert_eq!(
            copies(&p)[1],
            pair(&format!("K:\\{name}"), &format!("H:\\work\\{expected}"))
        );
        assert_eq!(
            shown(p.script.cert_path.as_ref().unwrap()),
            format!("C:\\Work\\{expected}")
        );
    }
}

#[test]
fn the_recorder_is_copied_where_it_is_needed() {
    let with = Hoster::plan(
        host_options(),
        monitor_options(MonitorMethod::Procmon),
        packer_options(),
        facts(Some(on_disk(b'P', &["Procmon64.exe"]))),
        "Work",
        "Shared",
    )
    .ok()
    .unwrap();
    assert_eq!(copies(&with)[1], pair("P:\\Procmon64.exe", "H:\\work\\Procmon64.exe"));
    let path = with.guest.monitor_options.procmon_path.as_ref().unwrap();
    assert_eq!(shown(path), "C:\\Work\\Procmon64.exe");
    assert!(plan(host_options()).guest.monitor_options.procmon_path.is_none());
    let nameless = Hoster::plan(
        host_options(),
        monitor_options(MonitorMethod::Procmon),
        packer_options(),
        facts(Some(on_disk(b'P', &[]))),
        "Work",
        "Shared",
    )
    .ok()
    .unwrap();
    assert_eq!(copies(&nameless)[1].1, "H:\\work\\Procmon.exe");
}

#[test]
fn the_guest_is_told_what_to_do() {
    let p = plan(host_options());
    let launch = launched(&p);
    assert!(launch.shutdown_on_exit && launch.no_children);
    assert_eq!(launch.args, vec!["/S"]);
    let monitor = &p.guest.monitor_options;
    assert!(monitor.creation && !monitor.deletion && monitor.modification && !monitor.renaming);
    assert_eq!(shown(&p.guest.packer_options.output), "C:\\Work\\output.zip");
    assert!(!p.guest.packer_options.overwrite);
    assert_eq!(p.guest.packer_options.size_limit, 99);
    assert_eq!(shown(&p.hoster.packer_output), "H:\\result.zip");
    assert_eq!(shown(&p.hoster.sandbox_output()), "H:\\work\\output.zip");
    assert_eq!(shown(&p.hoster.script_path()), "H:\\work\\launch.ps1");
}

#[test]
fn the_sandbox_is_set_up_as_asked() {
    let p = plan(HostOptions {
        no_vgpu: true,
        no_network: true,
        isolated: true,
        memory: Some(4096),
        ..host_options()
    });
    let c = &p.hoster.wsb_configuration;
    assert!(c.vgpu == OptionValue::Disable);
    assert!(c.networking == OptionValue::Disable);
    assert!(c.protected_client == OptionValue::Enable);
    assert!(c.audio_input.is_default() && c.video_input.is_default());
    assert_eq!(c.memory_in_mb, Some(4096));
    assert_eq!(
        c.logon_command.command,
        "powershell.exe -ExecutionPolicy Bypass -NoProfile -File C:\\Work\\launch.ps1"
    );
    let plain = plan(host_options());
    let c = &plain.hoster.wsb_configuration;
    assert!(c.vgpu.is_default() && c.networking.is_default() && c.protected_client.is_default());
    assert_eq!(c.memory_in_mb, None);
    assert!(!OptionValue::Enable.is_default());
    assert!(OptionValue::default().is_default());
    assert!(Configuration::default().mapped_folders.mapped_folders.is_empty());
}

#[test]
fn the_process_needs_a_name() {
    let nameless =
        HostFacts { process: on_disk(b'H', &[]), process_name: None, ..facts(None) };
    let result = Hoster::new(
        host_options(),
        monitor_options(MonitorMethod::WinApi),
        packer_options(),
        nameless,
    );
    assert!(result.err() == Some(HostError::NoFileName));
}

#[test]
fn folder_names_in_the_sandbox_are_made_up() {
    let p = Hoster::new(
        HostOptions { share_process_folder: true, ..host_options() },
        monitor_options(MonitorMethod::WinApi),
        packer_options(),
        facts(None),
    )
    .ok()
    .unwrap();
    let folders = &p.hoster.wsb_configuration.mapped_folders.mapped_folders;
    for folder in folders {
        assert_eq!(folder.sandbox_folder.len(), 13);
        assert!(folder.sandbox_folder.starts_with("C:\\"));
    }
    assert!(folders[0].sandbox_folder != folders[1].sandbox_folder);
    assert_eq!(
        shown(&launched(&p).process),
        format!("{}\\setup.exe", folders[1].sandbox_folder)
    );
}

fn script(cert_path: Option<GivenPath>, delay: u64) -> LaunchScript {
    LaunchScript { cert_path, delay, program: given(b'C', &["Work", "dynstaller.exe"]) }
}

#[test]
fn the_script_starts_the_program() {
    assert_eq!(
        script(None, 0).text("abc"),
        "$env:DYNSTALLER_ARGS = 'abc'\nStart-Process C:\\Work\\dynstaller.exe"
    );
    assert_eq!(
        script(None, 12).text("abc"),
        "Start-Sleep -Seconds 12\n$env:DYNSTALLER_ARGS = 'abc'\nStart-Process C:\\Work\\dynstaller.exe"
    );
}

#[test]
fn the_script_installs_the_certificate_first() {
    let text = script(Some(given(b'C', &["Work", "cert.cer"])), 5).text("abc");
    let lines: Vec<&str> = text.split('\n').collect();
    assert_eq!(
        lines,
        vec![
            "$rootCertPath = \"C:\\\\Work\\\\cert.cer\"",
            "$rootCert = New-Object System.Security.Cryptography.X509Certificates.X509Certificate2",
            "$rootCert.Import($rootCertPath)",
            "$certStore = New-Object System.Security.Cryptography.X509Certificates.X509Store(\"Root\", \"LocalMachine\")",
            "$certStore.Open(\"ReadWrite\")",
            "$certStore.Add($rootCert)",
            "$certStore.Close()",
            "Start-Sleep -Seconds 5",
            "$env:DYNSTALLER_ARGS = 'abc'",
            "Start-Process C:\\Work\\dynstaller.exe",
        ]
    );
}

#[test]
fn the_script_carries_the_arguments() {
    let arguments = b"{\"command\":\"x\"}".to_vec();
    let text = script(None, 0).for_arguments(&arguments);
    let line = text.split('\n').next().unwrap();
    let value = line.strip_prefix("$env:DYNSTALLER_ARGS = '").unwrap().strip_suffix('\'').unwrap();
    assert_eq!(decode_arguments(value).ok(), Some(arguments));
}

#[test]
fn quoted_text_is_escaped() {
    assert_eq!(quote(&encode_utf16("a\"b\\c'd")), "\"a\\\"b\\\\c\\'d\"");
    assert_eq!(quote(&encode_utf16("\u{1f600}é\n")), "\"\u{1f600}é\\n\"");
    assert_eq!(quote(&vec![0x61, 0xd83d, 0xde00, 0xdc0a]), "\"a\u{1f600}\\u{dc0a}\"");
    assert_eq!(quote(&vec![0xd9ab, 0x62]), "\"\\u{d9ab}b\"");
}
