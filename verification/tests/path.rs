use dynstaller::changes::{ChangeKey, ChangeMap, ItemMap};
use dynstaller::item::ItemMetadata;
use dynstaller::path::{extension, PathComponent, PathPrefix, PrefixKind, WinPath};
use dynstaller::text::encode_utf16;

fn disk(letter: u8) -> PathComponent {
    let kind = PrefixKind::Disk(letter.to_ascii_uppercase());
    PathComponent::Prefix(PathPrefix::new(kind, vec![letter as u16, 0x3a]).unwrap())
}

fn name(text: &str) -> PathComponent {
    PathComponent::Normal(encode_utf16(text))
}

fn path(components: Vec<PathComponent>) -> WinPath {
    WinPath { components }
}

fn shown(path: &WinPath) -> String {
    String::from_utf16_lossy(&path.to_units())
}

/// What the components of a path stand for when all of its names are plain.
fn plain(path: &WinPath) -> Vec<WinPath> {
    (0..path.components.len())
        .map(|i| {
            let mut one = path.clone();
            one.components.drain(..i);
            one.components.truncate(1);
            one
        })
        .collect()
}

#[test]
fn paths_are_spelled_with_separators() {
    let p = path(vec![disk(b'C'), PathComponent::RootDir, name("a"), name("b.txt")]);
    assert_eq!(shown(&p), "C:\\a\\b.txt");
    let relative = path(vec![PathComponent::ParentDir, PathComponent::ParentDir, name("x")]);
    assert_eq!(shown(&relative), "..\\..\\x");
    let here = path(vec![PathComponent::CurDir, name("x")]);
    assert_eq!(shown(&here), ".\\x");
    assert_eq!(shown(&path(vec![disk(b'c'), name("x")])), "c:x");
    assert_eq!(shown(&path(vec![])), "");
}

#[test]
fn the_last_name_of_a_path_is_its_file_name() {
    let p = path(vec![disk(b'C'), PathComponent::RootDir, name("a")]);
    assert_eq!(p.file_name(), Some(encode_utf16("a")));
    assert_eq!(path(vec![disk(b'C'), PathComponent::RootDir]).file_name(), None);
    assert_eq!(path(vec![name("a"), PathComponent::ParentDir]).file_name(), None);
    assert_eq!(path(vec![]).file_name(), None);
}

#[test]
fn the_parent_of_a_path_lacks_its_last_entry() {
    let p = path(vec![disk(b'C'), PathComponent::RootDir, name("a")]);
    assert_eq!(shown(&p.parent().unwrap()), "C:\\");
    assert!(path(vec![disk(b'C'), PathComponent::RootDir]).parent().is_none());
    assert!(path(vec![]).parent().is_none());
    assert_eq!(shown(&path(vec![name("a"), PathComponent::ParentDir]).parent().unwrap()), "a");
}

#[test]
fn what_is_joined_can_be_stripped() {
    let base = path(vec![disk(b'C'), PathComponent::RootDir]);
    let file = base.join_path(&path(vec![name("a"), name("b")]));
    assert_eq!(shown(&file.strip_prefix(&base).unwrap()), "a\\b");
    assert_eq!(shown(&base.strip_prefix(&base).unwrap()), "");
    assert!(base.strip_prefix(&file).is_none());
    let elsewhere = path(vec![disk(b'D'), PathComponent::RootDir]);
    assert!(file.strip_prefix(&elsewhere).is_none());
}

#[test]
fn the_spelling_of_a_prefix_does_not_count() {
    let upper = path(vec![disk(b'C'), PathComponent::RootDir, name("a")]);
    let lower = path(vec![disk(b'c'), PathComponent::RootDir, name("a")]);
    assert!(upper.same_key(&lower));
    assert_eq!(shown(&lower), "c:\\a");
    let other = path(vec![disk(b'c'), PathComponent::RootDir, name("A")]);
    assert!(!upper.same_key(&other));
    let mut changes: ChangeMap<WinPath> = ItemMap::new();
    changes.record(upper, &ItemMetadata::default().create(true));
    changes.record(lower, &ItemMetadata::default().delete(true));
    assert_eq!(changes.entries().len(), 1);
}

/// A prefix of each kind, with a way to spell it.
fn prefixes() -> Vec<(PrefixKind, &'static str)> {
    vec![
        (PrefixKind::Verbatim(encode_utf16("a")), "\\\\?\\a"),
        (
            PrefixKind::VerbatimUnc(encode_utf16("a"), encode_utf16("b")),
            "\\\\?\\UNC\\a\\b",
        ),
        (PrefixKind::VerbatimUnc(encode_utf16("a"), vec![]), "\\\\?\\UNC\\a"),
        (PrefixKind::VerbatimDisk(b'C'), "\\\\?\\c:"),
        (PrefixKind::DeviceNs(encode_utf16("a")), "//./a"),
        (PrefixKind::Unc(encode_utf16("a"), encode_utf16("b")), "\\\\a/b"),
        (PrefixKind::Disk(b'C'), "c:"),
    ]
}

#[test]
fn prefixes_of_different_kinds_differ() {
    let single = |(kind, text): (PrefixKind, &str)| {
        path(vec![PathComponent::Prefix(PathPrefix::new(kind, encode_utf16(text)).unwrap())])
    };
    for (i, a) in prefixes().into_iter().enumerate() {
        let text = a.1;
        let a = single(a);
        assert_eq!(shown(&a), text);
        for (j, b) in prefixes().into_iter().enumerate() {
            assert_eq!(a.same_key(&single(b)), i == j);
        }
    }
}

#[test]
fn a_prefix_is_spelled_as_its_kind_asks_for() {
    for (i, (_, text)) in prefixes().into_iter().enumerate() {
        for (j, (kind, _)) in prefixes().into_iter().enumerate() {
            assert_eq!(PathPrefix::new(kind, encode_utf16(text)).is_some(), i == j);
        }
    }
    for text in ["", "C", "C:\\", "D:", "1:"] {
        assert!(PathPrefix::new(PrefixKind::Disk(b'C'), encode_utf16(text)).is_none());
    }
    assert!(PathPrefix::new(PrefixKind::Disk(b'1'), encode_utf16("1:")).is_none());
    let prefix = PathPrefix::new(PrefixKind::Disk(b'C'), encode_utf16("c:")).unwrap();
    assert!(matches!(prefix.kind(), PrefixKind::Disk(b'C')));
    assert_eq!(*prefix.text(), encode_utf16("c:"));
    assert_eq!(*PathPrefix::disk(b'Q').text(), encode_utf16("Q:"));
}

#[test]
fn dots_are_resolved_by_name() {
    let p = path(vec![
        disk(b'C'),
        PathComponent::RootDir,
        name("a"),
        PathComponent::CurDir,
        name("b"),
        PathComponent::ParentDir,
        name("c"),
    ]);
    let normal = p.normalize_lexically(&plain(&p));
    assert_eq!(shown(&normal), "C:\\a\\c");
    assert_eq!(shown(&normal.normalize_lexically(&plain(&normal))), "C:\\a\\c");
}

#[test]
fn no_dots_lead_above_the_root() {
    let p = path(vec![
        disk(b'C'),
        PathComponent::RootDir,
        PathComponent::ParentDir,
        PathComponent::ParentDir,
        name("a"),
    ]);
    assert_eq!(shown(&p.normalize_lexically(&plain(&p))), "C:\\a");
    let relative = path(vec![PathComponent::ParentDir, name("a")]);
    assert_eq!(shown(&relative.normalize_lexically(&plain(&relative))), "a");
}

#[test]
fn a_bare_prefix_becomes_a_root() {
    assert_eq!(shown(&path(vec![disk(b'C')]).into_rooted()), "C:\\");
    assert_eq!(shown(&path(vec![disk(b'C'), name("a")]).into_rooted()), "C:a");
    assert_eq!(shown(&path(vec![name("a")]).into_rooted()), "a");
}

#[test]
fn an_extension_follows_the_last_full_stop() {
    let ext = |text: &str| extension(&encode_utf16(text)).map(|e| String::from_utf16_lossy(&e));
    assert_eq!(ext("a.tar.gz"), Some("gz".to_string()));
    assert_eq!(ext("a."), Some(String::new()));
    assert_eq!(ext("a"), None);
    assert_eq!(ext(".a"), None);
    assert_eq!(ext(".."), None);
    assert_eq!(ext("..a"), Some("a".to_string()));
    assert_eq!(ext("...").as_deref(), Some(""));
}

#[test]
fn a_path_is_taken_from_another() {
    let base = path(vec![disk(b'C'), PathComponent::RootDir, name("f")]);
    let taken = |other: Vec<PathComponent>| shown(&base.join_path(&path(other)));
    assert_eq!(taken(vec![name("a"), name("b")]), "C:\\f\\a\\b");
    assert_eq!(taken(vec![PathComponent::CurDir, name("a")]), "C:\\f\\a");
    assert_eq!(taken(vec![PathComponent::ParentDir, name("a")]), "C:\\f\\..\\a");
    assert_eq!(taken(vec![PathComponent::RootDir, name("a")]), "C:\\a");
    assert_eq!(taken(vec![disk(b'D'), name("a")]), "D:a");
    assert_eq!(taken(vec![]), "C:\\f");
    let relative = path(vec![name("f")]);
    assert_eq!(shown(&relative.join_path(&path(vec![PathComponent::RootDir]))), "\\");
    let here = || path(vec![PathComponent::CurDir, name("a")]);
    assert_eq!(shown(&path(vec![]).join_path(&here())), ".\\a");
    assert_eq!(path(vec![disk(b'C')]).join_path(&here()).components.len(), 3);
}

#[test]
fn a_verbatim_path_resolves_what_is_taken_from_it() {
    let kind = PrefixKind::VerbatimDisk(b'C');
    let text = encode_utf16("\\\\?\\C:");
    let prefix = PathComponent::Prefix(PathPrefix::new(kind, text).unwrap());
    let base = path(vec![prefix, PathComponent::RootDir, name("f")]);
    let taken = |other: Vec<PathComponent>| shown(&base.join_path(&path(other)));
    assert_eq!(taken(vec![PathComponent::CurDir, name("a")]), "\\\\?\\C:\\f\\a");
    assert_eq!(taken(vec![PathComponent::ParentDir, name("a")]), "\\\\?\\C:\\a");
    assert_eq!(taken(vec![PathComponent::RootDir, name("a")]), "\\\\?\\C:\\a");
    let up = vec![PathComponent::ParentDir, PathComponent::ParentDir];
    assert_eq!(taken(up), "\\\\?\\C:\\");
}

#[test]
fn a_name_like_a_volume_leads_to_the_volume() {
    let p = path(vec![name("x"), name("a:b"), name("y")]);
    let mut readings = plain(&p);
    readings[1] = path(vec![disk(b'a'), name("b")]);
    assert_eq!(shown(&p.normalize_lexically(&readings)), "a:b\\y");
    let up = path(vec![name("x"), name("a:b"), PathComponent::ParentDir]);
    let mut readings = plain(&up);
    readings[1] = path(vec![disk(b'a'), name("b")]);
    assert_eq!(shown(&up.normalize_lexically(&readings)), "a:");
}

#[test]
fn a_slash_in_a_verbatim_name_parts_it() {
    let kind = PrefixKind::VerbatimDisk(b'C');
    let text = encode_utf16("\\\\?\\C:");
    let prefix = PathComponent::Prefix(PathPrefix::new(kind, text).unwrap());
    let p = path(vec![prefix, PathComponent::RootDir, name("a/../b")]);
    let mut readings = plain(&p);
    readings[2] = path(vec![name("a"), PathComponent::ParentDir, name("b")]);
    assert_eq!(shown(&p.normalize_lexically(&readings)), "\\\\?\\C:\\b");
}

#[test]
fn the_prefix_of_a_share_is_read_with_its_root() {
    let kind = || PrefixKind::Unc(encode_utf16("s"), encode_utf16("h"));
    let share = || {
        let text = encode_utf16("\\\\s\\h");
        PathComponent::Prefix(PathPrefix::new(kind(), text).unwrap())
    };
    let p = path(vec![share(), PathComponent::RootDir, name("a")]);
    let mut readings = plain(&p);
    readings[0] = path(vec![share(), PathComponent::RootDir]);
    assert_eq!(shown(&p.normalize_lexically(&readings)), "\\\\s\\h\\a");
}

#[test]
fn what_follows_a_verbatim_prefix_follows_its_root() {
    let kind = PrefixKind::VerbatimDisk(b'C');
    let text = encode_utf16("\\\\?\\C:");
    let base = path(vec![PathComponent::Prefix(PathPrefix::new(kind, text).unwrap())]);
    assert_eq!(shown(&base.join_path(&path(vec![name("a")]))), "\\\\?\\C:\\a");
    assert_eq!(base.join_path(&path(vec![name("a")])).components.len(), 3);
    assert_eq!(shown(&base.join_path(&path(vec![]))), "\\\\?\\C:");
}
