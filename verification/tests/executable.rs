use dynstaller::given::GivenPath;
use dynstaller::monitor::executable::{
    choose_procmon, download_place, is_procmon, is_procmon_digest, procmon_places,
    ProcmonCommand, ProcmonPathError, HASH, HASH_64,
};
use dynstaller::monitor::procmon::ProcmonMonitor;
use dynstaller::monitor::session::{RecordingSession, SessionAction, SessionEvent};
use dynstaller::options::{MonitorMethod, MonitorOptions};
use dynstaller::path::{PathComponent, WinPath};
use dynstaller::text::encode_utf16;
use sha1::Digest;

fn path(names: &[&str]) -> GivenPath {
    GivenPath::of(WinPath {
        components: names.iter().map(|n| PathComponent::Normal(encode_utf16(n))).collect(),
    })
}

fn shown(path: &GivenPath) -> String {
    String::from_utf16_lossy(&path.text)
}

fn options(procmon_path: Option<GivenPath>) -> MonitorOptions {
    MonitorOptions {
        method: MonitorMethod::Procmon,
        path: path(&[]),
        creation: true,
        deletion: true,
        modification: true,
        renaming: true,
        add_registry: false,
        procmon_path,
    }
}

#[test]
fn known_executables_are_told_by_their_digests() {
    assert!(is_procmon_digest(&HASH));
    assert!(is_procmon_digest(&HASH_64));
    assert!(!is_procmon_digest(&HASH[..19]));
    let mut other = HASH;
    other[19] ^= 1;
    assert!(!is_procmon_digest(&other));
    assert!(!is_procmon_digest(&[]));
    assert_eq!(HASH[0], 0xbc);
    assert_eq!(HASH_64[19], 0x89);
}

#[test]
fn contents_are_digested_before_they_are_compared() {
    assert!(!is_procmon(&HASH));
    assert!(!is_procmon(b"anything else"));
    assert!(!is_procmon_digest(&sha1::Sha1::digest(b"anything else")));
}

#[test]
fn the_executable_must_exist_and_be_known() {
    let result = ProcmonMonitor::resolve_procmon_path(path(&["p.exe"]), None);
    assert!(result.err() == Some(ProcmonPathError::DoesNotExist));
    let result = ProcmonMonitor::resolve_procmon_path(path(&["p.exe"]), Some(b"x"));
    assert!(result.err() == Some(ProcmonPathError::Invalid));
}

#[test]
fn the_executable_is_looked_for_in_order() {
    let places = procmon_places(&Some(path(&["here"])), &vec![path(&["x"]), path(&["y"])]);
    let shown: Vec<String> = places.iter().map(shown).collect();
    assert_eq!(
        shown,
        vec![
            "here\\Procmon64.exe",
            "x\\Procmon64.exe",
            "x\\Procmon.exe",
            "y\\Procmon64.exe",
            "y\\Procmon.exe",
        ]
    );
    assert!(procmon_places(&None, &vec![]).is_empty());
}

#[test]
fn the_first_place_with_a_file_is_chosen() {
    let places = vec![path(&["a"]), path(&["b"]), path(&["c"])];
    let found = choose_procmon(&options(None), &places, &vec![false, true, true]);
    assert_eq!(shown(&found.unwrap()), "b");
    assert!(choose_procmon(&options(None), &places, &vec![false, false, false]).is_none());
    let named = choose_procmon(&options(Some(path(&["n"]))), &places, &vec![true, true, true]);
    assert_eq!(shown(&named.unwrap()), "n");
    assert_eq!(shown(&download_place(&path(&["tmp"]))), "tmp\\Procmon64.exe");
}

#[test]
fn arguments_keep_the_spelling_of_a_path() {
    let spelled = GivenPath { text: encode_utf16("./l.pml"), ..path(&["l.pml"]) };
    let record = ProcmonCommand::Record { backing_file: spelled, config: path(&["c.pmc"]) };
    assert_eq!(arguments(&record)[4], "./l.pml");
    let folder = GivenPath { text: encode_utf16("x/y/"), ..path(&["x", "y"]) };
    let places = procmon_places(&None, &vec![folder]);
    assert_eq!(shown(&places[0]), "x/y/Procmon64.exe");
}

fn arguments(command: &ProcmonCommand) -> Vec<String> {
    command.arguments().iter().map(|a| String::from_utf16_lossy(a)).collect()
}

#[test]
fn every_call_has_its_arguments() {
    let record = ProcmonCommand::Record { backing_file: path(&["l.pml"]), config: path(&["c.pmc"]) };
    assert_eq!(
        arguments(&record),
        vec![
            "/Minimized", "/AcceptEula", "/Quiet", "/BackingFile", "l.pml", "/LoadConfig", "c.pmc",
        ]
    );
    assert_eq!(
        arguments(&ProcmonCommand::WaitForIdle),
        vec!["/Minimized", "/AcceptEula", "/Quiet", "/WaitForIdle"]
    );
    assert_eq!(arguments(&ProcmonCommand::Terminate)[3], "/Terminate");
    let export = ProcmonCommand::Export { log: path(&["l.pml"]), output: path(&["o.xml"]) };
    assert_eq!(arguments(&export)[3..], ["/OpenLog", "l.pml", "/SaveAs", "o.xml"]);
}

#[test]
fn a_recording_runs_until_it_is_stopped() {
    let mut session = RecordingSession::new();
    assert!(session.step(SessionEvent::WaitEnded { success: true }) == SessionAction::SignalStarted);
    assert!(session.step(SessionEvent::StopRequested) == SessionAction::Terminate);
    assert!(session.step(SessionEvent::RecordEnded) == SessionAction::GoOn);
    assert!(!session.is_complete());
    assert!(session.step(SessionEvent::TerminateEnded) == SessionAction::GoOn);
    assert!(session.is_complete());
}

#[test]
fn a_recording_that_ended_is_not_stopped() {
    let mut session = RecordingSession::new();
    session.step(SessionEvent::WaitEnded { success: true });
    session.step(SessionEvent::RecordEnded);
    assert!(session.step(SessionEvent::StopRequested) == SessionAction::GoOn);
    assert!(session.is_complete());
}

#[test]
fn a_recording_that_does_not_run_is_given_up() {
    let mut session = RecordingSession::new();
    assert!(session.step(SessionEvent::WaitEnded { success: false }) == SessionAction::Fail);
    assert!(!session.started);
}
