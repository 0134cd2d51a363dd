use dynstaller::given::GivenPath;
use dynstaller::path::{PathComponent, PathPrefix, PrefixKind, WinPath};
use dynstaller::text::encode_utf16;

fn name(text: &str) -> PathComponent {
    PathComponent::Normal(encode_utf16(text))
}

fn disk() -> PathComponent {
    PathComponent::Prefix(PathPrefix::disk(b'C'))
}

fn given(text: &str, components: Vec<PathComponent>) -> GivenPath {
    GivenPath { text: encode_utf16(text), path: WinPath { components } }
}

fn joined(base: &GivenPath, other: &GivenPath) -> (String, String) {
    let path = base.join(other);
    (String::from_utf16_lossy(&path.text), String::from_utf16_lossy(&path.path.to_units()))
}

fn pair(text: &str, path: &str) -> (String, String) {
    (text.to_string(), path.to_string())
}

#[test]
fn an_entry_follows_the_text_of_its_folder() {
    let entry = GivenPath::entry(encode_utf16("a"));
    let folder = |text: &str| given(text, vec![disk(), PathComponent::RootDir, name("f")]);
    assert_eq!(joined(&folder("C:/f"), &entry), pair("C:/f\\a", "C:\\f\\a"));
    assert_eq!(joined(&folder("C:/f/"), &entry), pair("C:/f/a", "C:\\f\\a"));
    assert_eq!(joined(&folder("C:\\\\f\\"), &entry), pair("C:\\\\f\\a", "C:\\f\\a"));
    assert_eq!(joined(&given("C:", vec![disk()]), &entry), pair("C:a", "C:a"));
    assert_eq!(joined(&given("", vec![]), &entry), pair("a", "a"));
}

#[test]
fn nothing_adds_only_a_separator() {
    let folder = given("f", vec![name("f")]);
    assert_eq!(joined(&folder, &given("", vec![])), pair("f\\", "f"));
}

#[test]
fn what_has_a_prefix_or_a_root_keeps_its_text() {
    let folder = given("C:/f", vec![disk(), PathComponent::RootDir, name("f")]);
    let drive = PathComponent::Prefix(PathPrefix::disk(b'D'));
    assert_eq!(joined(&folder, &given("D:a/b", vec![drive, name("a"), name("b")])).0, "D:a/b");
    let root = given("/a", vec![PathComponent::RootDir, name("a")]);
    assert_eq!(joined(&folder, &root), pair("C:/a", "C:\\a"));
    assert_eq!(joined(&given("f", vec![name("f")]), &root), pair("/a", "\\a"));
}

#[test]
fn a_verbatim_path_is_spelled_anew() {
    let kind = PrefixKind::VerbatimDisk(b'C');
    let prefix = || {
        let text = encode_utf16("\\\\?\\C:");
        PathComponent::Prefix(PathPrefix::new(PrefixKind::VerbatimDisk(b'C'), text).unwrap())
    };
    assert!(PathPrefix::new(kind, encode_utf16("C:")).is_none());
    let folder = given("\\\\?\\C:\\\\f", vec![prefix(), PathComponent::RootDir, name("f")]);
    let other = given("./a/b", vec![PathComponent::CurDir, name("a"), name("b")]);
    assert_eq!(joined(&folder, &other).0, "\\\\?\\C:\\f\\a\\b");
}

#[test]
fn a_copy_keeps_text_and_components() {
    let path = given("C:/f", vec![disk(), PathComponent::RootDir, name("f")]);
    let copy = path.clone();
    assert_eq!(copy.text, encode_utf16("C:/f"));
    assert_eq!(copy.path.components.len(), 3);
    let spelled = GivenPath::of(copy.path);
    assert_eq!(spelled.text, encode_utf16("C:\\f"));
}
