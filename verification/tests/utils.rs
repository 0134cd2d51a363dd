use dynstaller::cli::launched_track_options;
use dynstaller::given::GivenPath;
use dynstaller::launch::{decode_arguments, encode_arguments, ArgumentsError};
use dynstaller::options::LaunchOptions;
use dynstaller::path::{PathComponent, PathPrefix, WinPath};
use dynstaller::text::encode_utf16;
use dynstaller::utils::{
    add_extension, create_temp_name, create_temp_path, resume_process, ResumeError, ThreadEntry,
};

#[test]
fn temporary_names_are_ten_letters() {
    let mut seen = Vec::new();
    for _ in 0..50 {
        let name = create_temp_name();
        assert_eq!(name.len(), 10);
        assert!(name.chars().all(|c| c.is_ascii_alphabetic()));
        seen.push(name);
    }
    seen.dedup();
    assert!(seen.len() > 1);
}

#[test]
fn an_extension_is_added_to_a_name() {
    assert_eq!(add_extension("a", Some("wsb")), "a.wsb");
    assert_eq!(add_extension("a", Some("")), "a");
    assert_eq!(add_extension("a", None), "a");
}

#[test]
fn temporary_paths_lie_in_their_folder() {
    let folder = GivenPath::of(WinPath { components: vec![] });
    let text = String::from_utf16_lossy(&create_temp_path(&folder, Some("pml")).text);
    assert_eq!(text.len(), 14);
    assert!(text.ends_with(".pml"));
    let components = vec![
        PathComponent::Prefix(PathPrefix::disk(b'C')),
        PathComponent::RootDir,
        PathComponent::Normal(encode_utf16("Temp")),
    ];
    let folder = GivenPath { text: encode_utf16("C:/Temp"), path: WinPath { components } };
    let path = create_temp_path(&folder, None);
    let text = String::from_utf16_lossy(&path.text);
    assert_eq!(text.len(), 18);
    assert!(text.starts_with("C:/Temp\\"));
    assert_eq!(path.path.components.len(), 4);
}

#[test]
fn the_last_thread_of_a_process_is_resumed() {
    let thread = |thread_id, owner_process_id| ThreadEntry { thread_id, owner_process_id };
    let threads = vec![thread(1, 9), thread(2, 5), thread(3, 5), thread(4, 9)];
    assert_eq!(resume_process(5, &threads).ok(), Some(3));
    assert_eq!(resume_process(9, &threads).ok(), Some(4));
    assert!(resume_process(6, &threads).err() == Some(ResumeError::NoThread { pid: 6 }));
    assert!(resume_process(6, &vec![]).err() == Some(ResumeError::NoThread { pid: 6 }));
}

#[test]
fn arguments_survive_their_way_through_text() {
    for bytes in [vec![], vec![0xff], b"{\"a\":1}".to_vec(), (0..=255).collect()] {
        let text = encode_arguments(&bytes);
        assert!(text.chars().all(|c| c.is_ascii_alphanumeric() || c == '-' || c == '_'));
        assert_eq!(text.len(), (4 * bytes.len() + 2) / 3);
        assert_eq!(decode_arguments(&text).ok(), Some(bytes));
    }
    assert_eq!(encode_arguments(&vec![0xfb, 0xff, 0xfe, 0x61]), "-__-YQ");
}

#[test]
fn a_text_that_holds_no_arguments_is_refused() {
    let error = |text: &str| decode_arguments(text).unwrap_err();
    assert!(error("a+aa") == ArgumentsError::InvalidByte { index: 1, byte: b'+' });
    assert!(matches!(error("aaaaa"), ArgumentsError::InvalidLength { .. }));
    assert!(error("ab") == ArgumentsError::InvalidLastSymbol { index: 1, byte: b'b' });
    assert!(error("YQ==") == ArgumentsError::InvalidPadding);
}

#[test]
fn the_launched_process_is_tracked() {
    let options = LaunchOptions {
        process: GivenPath::of(WinPath { components: vec![] }),
        args: vec![],
        no_children: true,
        shutdown_on_exit: false,
    };
    let track = launched_track_options(&options, Some(12));
    assert_eq!(track.pid, Some(12));
    assert!(track.no_children);
}
