use dynstaller::changes::{ChangeMap, ItemMap};
use dynstaller::given::GivenPath;
use dynstaller::item::ItemMetadata;
use dynstaller::monitor::procmon::RegistryKey;
use dynstaller::options::{MonitorMethod, MonitorOptions, PackerOptions};
use dynstaller::packer::{FilePlan, FileProbe, OutputMode, Packer, PackerVersion, SystemForm};
use dynstaller::path::{PathComponent, PathPrefix, WinPath};
use dynstaller::text::encode_utf16;

fn on_disk(letter: u8, names: &[&str]) -> WinPath {
    let mut components = vec![
        PathComponent::Prefix(PathPrefix::disk(letter)),
        PathComponent::RootDir,
    ];
    for name in names {
        components.push(match *name {
            "." => PathComponent::CurDir,
            ".." => PathComponent::ParentDir,
            _ => PathComponent::Normal(encode_utf16(name)),
        });
    }
    WinPath { components }
}

fn shown(path: &WinPath) -> String {
    String::from_utf16_lossy(&path.to_units())
}

/// What the system makes of a path that does not exist and whose names are plain.
fn unresolved(path: &WinPath) -> SystemForm {
    let rooted = path.clone().into_rooted();
    SystemForm::Readings(
        (0..rooted.components.len())
            .map(|i| {
                let mut one = rooted.clone();
                one.components.drain(..i);
                one.components.truncate(1);
                one
            })
            .collect(),
    )
}

fn packer(overwrite: bool, size_limit: u64) -> Packer {
    Packer::new(
        MonitorOptions {
            method: MonitorMethod::Usn,
            path: GivenPath::of(on_disk(b'C', &[])),
            creation: true,
            deletion: false,
            modification: false,
            renaming: false,
            add_registry: false,
            procmon_path: None,
        },
        PackerOptions { output: GivenPath::of(on_disk(b'C', &["out.zip"])), overwrite, size_limit },
    )
}

#[test]
fn files_are_named_relative_to_the_base() {
    let base = on_disk(b'C', &["base"]);
    let name = |file: &WinPath| Packer::create_zip_entry_path(file, &base);
    assert_eq!(name(&on_disk(b'C', &["base", "a", "b.txt"])), "files/a/b.txt");
    assert_eq!(name(&base), "files/");
    assert_eq!(name(&on_disk(b'D', &["x", "y.txt"])), "files/y.txt");
    assert_eq!(name(&on_disk(b'D', &[])), "files/unknown_file");
}

#[test]
fn names_in_the_archive_are_safe() {
    let base = on_disk(b'C', &[]);
    let file = on_disk(b'C', &["a:b|c<d>e\"f*g?h", "i/j\\k"]);
    assert_eq!(Packer::create_zip_entry_path(&file, &base), "files/a_b_c_d_e_f_g_h/i/j/k");
    let mut odd = on_disk(b'C', &[]);
    odd.components.push(PathComponent::Normal(vec![0x61, 0xdc00]));
    assert_eq!(Packer::create_zip_entry_path(&odd, &base), "files/a\u{fffd}");
}

#[test]
fn normalised_names_do_not_lead_up() {
    let base = on_disk(b'C', &[]);
    let path = on_disk(b'C', &["..", "a", "..", "..", "b"]);
    let file = Packer::normalize_path(&path, &unresolved(&path));
    assert_eq!(Packer::create_zip_entry_path(&file, &base), "files/b");
}

#[test]
fn reserved_files_are_recognised() {
    assert!(Packer::is_reserved_path(&on_disk(b'C', &["$Extend"])));
    assert!(Packer::is_reserved_path(&on_disk(b'C', &["$Extend", "$UsnJrnl"])));
    assert!(!Packer::is_reserved_path(&on_disk(b'C', &["a", "$b"])));
    assert!(!Packer::is_reserved_path(&on_disk(b'C', &[])));
    assert!(!Packer::is_reserved_path(&on_disk(b'C', &["Extend$"])));
    let relative = WinPath { components: vec![PathComponent::Normal(encode_utf16("$x"))] };
    assert!(!Packer::is_reserved_path(&relative));
}

#[test]
fn the_canonical_form_is_preferred() {
    let path = on_disk(b'C', &["a", ".", "..", "b"]);
    let canonical = SystemForm::Canonical(on_disk(b'D', &["real"]));
    assert_eq!(shown(&Packer::normalize_path(&path, &canonical)), "D:\\real");
    assert_eq!(shown(&Packer::normalize_path(&path, &unresolved(&path))), "C:\\b");
    let mut bare = on_disk(b'C', &[]);
    bare.components.pop();
    assert_eq!(shown(&Packer::normalize_path(&bare, &unresolved(&bare))), "C:\\");
}

#[test]
fn changed_files_are_described_once() {
    let files = vec![
        (on_disk(b'C', &["a"]), ItemMetadata::default().create(true)),
        (on_disk(b'C', &["x", "..", "a"]), ItemMetadata::default().delete(true)),
        (on_disk(b'C', &["b"]), ItemMetadata::default().modify(true)),
    ];
    let forms = vec![
        unresolved(&files[0].0),
        unresolved(&files[1].0),
        SystemForm::Canonical(on_disk(b'C', &["c"])),
    ];
    let result = Packer::files_normalized(&files, &forms);
    assert_eq!(result.entries().len(), 2);
    assert!(
        *result.get(&on_disk(b'C', &["a"])).unwrap() == ItemMetadata::default().delete(true)
    );
    assert!(
        *result.get(&on_disk(b'C', &["c"])).unwrap() == ItemMetadata::default().modify(true)
    );
}

#[test]
fn a_described_path_keeps_its_prefix() {
    let files = vec![(on_disk(b'D', &["x"]), ItemMetadata::default().create(true))];
    let result = Packer::files_normalized(&files, &vec![unresolved(&files[0].0)]);
    assert_eq!(shown(&result.entries()[0].0), "D:\\x");
}

#[test]
fn the_plan_for_a_file_follows_from_its_state() {
    let p = packer(false, 100);
    let base = on_disk(b'C', &[]);
    let file = on_disk(b'C', &["a"]);
    let plan = |probe| p.plan_file(&file, &base, probe);
    assert!(matches!(plan(FileProbe::Missing), FilePlan::SkipMissing));
    assert!(matches!(plan(FileProbe::Unreadable), FilePlan::SkipUnreadable));
    assert!(matches!(plan(FileProbe::Length(101)), FilePlan::SkipTooLarge { length: 101 }));
    match plan(FileProbe::Length(100)) {
        FilePlan::Pack(name) => assert_eq!(name, "files/a"),
        _ => panic!("the file is not packed"),
    }
    let reserved = on_disk(b'C', &["$Mft"]);
    assert!(matches!(
        p.plan_file(&reserved, &base, FileProbe::Length(1)),
        FilePlan::SkipReserved
    ));
}

#[test]
fn an_archive_is_overwritten_only_on_request() {
    assert!(packer(true, 0).output_mode() == OutputMode::CreateOrOverwrite);
    assert!(packer(false, 0).output_mode() == OutputMode::CreateNew);
}

#[test]
fn an_archive_describes_its_run() {
    let p = packer(false, 7);
    let version = || PackerVersion::new("1", "main", "abc", "now", "rustc 1", "stable");
    let described = p.metadata(version(), 12, ItemMap::new(), None);
    assert_eq!(described.version.version, "1");
    assert_eq!(described.version.branch, "main");
    assert_eq!(described.version.commit, "abc");
    assert_eq!(described.version.build_time, "now");
    assert_eq!(described.version.rust_version, "rustc 1");
    assert_eq!(described.version.rust_channel, "stable");
    assert_eq!(described.timestamp, 12);
    assert_eq!(described.packer.size_limit, 7);
    assert!(described.monitor.creation);
    assert!(described.registry_keys.entries().is_empty());
    let mut keys: ChangeMap<RegistryKey> = ItemMap::new();
    let path = WinPath { components: vec![PathComponent::Normal(encode_utf16("HKLM"))] };
    let key = RegistryKey { name: "HKLM".to_string(), path };
    keys.record(key, &ItemMetadata::default().create(true));
    let described = p.metadata(version(), 12, ItemMap::new(), Some(keys));
    assert_eq!(described.registry_keys.entries().len(), 1);
}
