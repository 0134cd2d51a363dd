//! How other programs are found, told apart and called.

use vstd::prelude::*;

use crate::cli::launched_track_options;
use crate::given::{entry, given_views, joined_given, GivenPath};
use crate::launch::{decode_arguments, encode_arguments, is_encodable, ArgumentsError};
use crate::laws::sandbox::is_word;
use crate::monitor::executable::{
    choose_procmon, download_place, is_any_file, is_procmon, is_procmon_digest, places,
    procmon_places, ProcmonCommand, ProcmonPathError,
};
use crate::monitor::procmon::ProcmonMonitor;
use crate::options::{LaunchOptions, MonitorOptions, TrackOptions};
use crate::text::utf16;
use crate::utils::{
    add_extension, create_temp_name, create_temp_path, extended_name, has_thread, is_last_thread_of,
    is_temp_name, resume_process, ResumeError, ThreadEntry,
};

verus! {

/// Every call accepts the licence and shows nothing. A call that records names the
/// file for the events and then the filter, one that exports names the events and
/// then the file to write, and the other two take nothing more.
pub proof fn calls_are_spelled_out(command: &ProcmonCommand, r: Vec<Vec<u16>>)
    requires
        call_ensures(ProcmonCommand::arguments, (command,), r),
    ensures
        r@.len() >= 4,
        r@[0]@ == utf16("/Minimized"@),
        r@[1]@ == utf16("/AcceptEula"@),
        r@[2]@ == utf16("/Quiet"@),
        match *command {
            ProcmonCommand::Record { backing_file, config } => {
                &&& r@.len() == 7
                &&& r@[3]@ == utf16("/BackingFile"@)
                &&& r@[4]@ == backing_file.text@
                &&& r@[5]@ == utf16("/LoadConfig"@)
                &&& r@[6]@ == config.text@
            },
            ProcmonCommand::WaitForIdle => r@.len() == 4 && r@[3]@ == utf16("/WaitForIdle"@),
            ProcmonCommand::Terminate => r@.len() == 4 && r@[3]@ == utf16("/Terminate"@),
            ProcmonCommand::Export { log, output } => {
                &&& r@.len() == 7
                &&& r@[3]@ == utf16("/OpenLog"@)
                &&& r@[4]@ == log.text@
                &&& r@[5]@ == utf16("/SaveAs"@)
                &&& r@[6]@ == output.text@
            },
        },
{
    let views = crate::monitor::executable::text_views(r@);
    assert(views.len() == r@.len());
    assert forall|i: int| 0 <= i < r@.len() implies #[trigger] r@[i]@ == views[i] by {}
}

proof fn lemma_places(
    current: Option<crate::given::GivenModel>,
    folders: Seq<GivenPath>,
    i: int,
)
    requires
        0 <= i < folders.len(),
    ensures
        ({
            let first: int = if current is Some {
                1
            } else {
                0
            };
            let all = places(current, folders);
            &&& all.len() == first + 2 * folders.len()
            &&& all[first + 2 * i] == joined_given(
                folders[i]@,
                entry(utf16("Procmon64.exe"@)),
            )
            &&& all[first + 2 * i + 1] == joined_given(folders[i]@, entry(utf16("Procmon.exe"@)))
            &&& current matches Some(folder) ==> all[0] == joined_given(
                folder,
                entry(utf16("Procmon64.exe"@)),
            )
        }),
    decreases folders.len(),
{
    reveal_with_fuel(places, 2);
    let front = folders.drop_last();
    if i < front.len() {
        lemma_places(current, front, i);
        assert(front[i] == folders[i]);
    } else if front.len() > 0 {
        lemma_places(current, front, 0);
    }
}

/// The executable is looked for in the current folder first, for 64 bits alone,
/// and then in the folders of the search path in their order, in each for 64 bits
/// before 32 bits. There is no other place.
pub proof fn the_current_folder_comes_before_the_search_path(
    current: &Option<GivenPath>,
    folders: &Vec<GivenPath>,
    r: Vec<GivenPath>,
    folder: &GivenPath,
    long_name: &GivenPath,
    short_name: &GivenPath,
    long_path: GivenPath,
    short_path: GivenPath,
)
    requires
        call_ensures(procmon_places, (current, folders), r),
        long_name@ == entry(utf16("Procmon64.exe"@)),
        short_name@ == entry(utf16("Procmon.exe"@)),
        call_ensures(GivenPath::join, (folder, long_name), long_path),
        call_ensures(GivenPath::join, (folder, short_name), short_path),
    ensures
        ({
            let first: int = if current is Some {
                1
            } else {
                0
            };
            &&& r@.len() == first + 2 * folders@.len()
            &&& (current matches Some(c) && c@ == folder@) ==> r@[0]@ == long_path@
            &&& forall|i: int|
                0 <= i < folders@.len() && (#[trigger] folders@[i])@ == folder@ ==> r@[first + 2
                    * i]@ == long_path@ && r@[first + 2 * i + 1]@ == short_path@
        }),
{
    let views = given_views(r@);
    assert(views.len() == r@.len());
    assert forall|k: int| 0 <= k < r@.len() implies #[trigger] r@[k]@ == views[k] by {}
    if folders@.len() > 0 {
        lemma_places(crate::given::given_view(*current), folders@, 0);
    }
    assert forall|i: int| 0 <= i < folders@.len() && (#[trigger] folders@[i])@ == folder@ implies ({
        let first: int = if current is Some {
            1
        } else {
            0
        };
        r@[first + 2 * i]@ == long_path@ && r@[first + 2 * i + 1]@ == short_path@
    }) by {
        lemma_places(crate::given::given_view(*current), folders@, i);
    }
}

/// What the options name is used, whatever is there. Otherwise the first place with
/// a file is, and without one there is nothing to use.
pub proof fn the_first_place_with_a_file_is_used(
    options: &MonitorOptions,
    places: &Vec<GivenPath>,
    exists: &Vec<bool>,
    r: Option<GivenPath>,
    i: int,
)
    requires
        call_ensures(choose_procmon, (options, places, exists), r),
        exists@.len() == places@.len(),
    ensures
        options.procmon_path matches Some(path) ==> (r matches Some(used) && used@ == path@),
        options.procmon_path is None && (0 <= i < exists@.len() && exists@[i]) && (forall|k: int|
            0 <= k < i ==> !#[trigger] exists@[k]) ==> (r matches Some(used) && used@
            == places@[i]@),
        options.procmon_path is None && (forall|k: int|
            0 <= k < exists@.len() ==> !#[trigger] exists@[k]) ==> r is None,
{
    if options.procmon_path is None {
        if let Some(path) = r {
            let at = choose|at: int|
                #[trigger] crate::monitor::executable::is_first_file(exists@, at) && places@[at]@
                    == path@;
            assert(exists@[at]);
            if (0 <= i < exists@.len() && exists@[i]) && (forall|k: int|
                0 <= k < i ==> !#[trigger] exists@[k]) {
                assert(at == i);
            }
        } else if 0 <= i < exists@.len() {
            assert(!is_any_file(exists@));
        }
    }
}

/// Two executables are known by their digests: the one for 32 bits and the one for
/// 64 bits.
pub proof fn two_executables_are_known(digest: &[u8], r: bool)
    requires
        call_ensures(is_procmon_digest, (digest,), r),
    ensures
        r <==> digest@ == seq![
            0xbcu8,
            0x18,
            0xa6,
            0x7a,
            0xd4,
            0x05,
            0x7d,
            0xd3,
            0x6f,
            0x89,
            0x6a,
            0x4d,
            0x41,
            0x1b,
            0x8f,
            0xc5,
            0xb0,
            0x6e,
            0x5b,
            0x2f,
        ] || digest@ == seq![
            0x8eu8,
            0xd8,
            0x88,
            0xa0,
            0x28,
            0x61,
            0x14,
            0x2e,
            0x5e,
            0xb5,
            0x76,
            0x38,
            0x55,
            0x68,
            0xc2,
            0xba,
            0x0d,
            0xdd,
            0x85,
            0x89,
        ],
{
    let short = seq![
        0xbcu8,
        0x18,
        0xa6,
        0x7a,
        0xd4,
        0x05,
        0x7d,
        0xd3,
        0x6f,
        0x89,
        0x6a,
        0x4d,
        0x41,
        0x1b,
        0x8f,
        0xc5,
        0xb0,
        0x6e,
        0x5b,
        0x2f,
    ];
    let long = seq![
        0x8eu8,
        0xd8,
        0x88,
        0xa0,
        0x28,
        0x61,
        0x14,
        0x2e,
        0x5e,
        0xb5,
        0x76,
        0x38,
        0x55,
        0x68,
        0xc2,
        0xba,
        0x0d,
        0xdd,
        0x85,
        0x89,
    ];
    assert(crate::monitor::executable::HASH@ =~= short);
    assert(crate::monitor::executable::HASH_64@ =~= long);
}

/// An executable is used exactly if it is there and is a known one.
pub proof fn only_known_executables_are_used(
    path: GivenPath,
    contents: &[u8],
    known: bool,
    there: Result<GivenPath, ProcmonPathError>,
    missing: Result<GivenPath, ProcmonPathError>,
)
    requires
        call_ensures(is_procmon, (contents,), known),
        call_ensures(ProcmonMonitor::resolve_procmon_path, (path, Some(contents)), there),
        call_ensures(ProcmonMonitor::resolve_procmon_path, (path, None), missing),
    ensures
        known ==> (there matches Ok(used) && used == path),
        !known ==> (there matches Err(e) && e == ProcmonPathError::Invalid),
        missing matches Err(e) && e == ProcmonPathError::DoesNotExist,
{
}

/// What is downloaded goes to the given folder, under the name for 64 bits.
pub proof fn a_download_has_the_name_for_64_bits(
    folder: &GivenPath,
    name: &GivenPath,
    r: GivenPath,
    target: GivenPath,
)
    requires
        call_ensures(download_place, (folder,), r),
        name@ == entry(utf16("Procmon64.exe"@)),
        call_ensures(GivenPath::join, (folder, name), target),
    ensures
        r@ == target@,
{
}

/// Decoding undoes encoding: the guest gets the bytes that the host was given.
pub proof fn arguments_arrive_as_they_were_sent(
    bytes: &Vec<u8>,
    text: String,
    carried: &str,
    r: Result<Vec<u8>, ArgumentsError>,
)
    requires
        is_encodable(bytes@.len()),
        call_ensures(encode_arguments, (bytes,), text),
        carried@ == text@,
        call_ensures(decode_arguments, (carried,), r),
    ensures
        r matches Ok(received) && received@ == bytes@,
        forall|i: int|
            0 <= i < text@.len() ==> #[trigger] text@[i] != '\'' && text@[i] != '"' && text@[i]
                != '\n',
{
}

/// A process is resumed by its last thread, and one without threads cannot be.
pub proof fn a_process_is_resumed_by_its_last_thread(
    pid: u32,
    threads: &Vec<ThreadEntry>,
    r: Result<u32, ResumeError>,
    i: int,
)
    requires
        call_ensures(resume_process, (pid, threads), r),
    ensures
        (0 <= i < threads@.len() && threads@[i].owner_process_id == pid) && (forall|k: int|
            i < k < threads@.len() ==> (#[trigger] threads@[k]).owner_process_id != pid) ==> (
        r matches Ok(thread_id) && thread_id == threads@[i].thread_id),
        (forall|k: int|
            0 <= k < threads@.len() ==> (#[trigger] threads@[k]).owner_process_id != pid) ==> (
        r matches Err(e) && e == ResumeError::NoThread { pid }),
{
    if (0 <= i < threads@.len() && threads@[i].owner_process_id == pid) && (forall|k: int|
        i < k < threads@.len() ==> (#[trigger] threads@[k]).owner_process_id != pid) {
        if let Ok(thread_id) = r {
            let at = choose|at: int|
                #[trigger] is_last_thread_of(threads@, pid, at) && threads@[at].thread_id
                    == thread_id;
            assert(at == i);
        } else {
            assert(!has_thread(threads@, pid));
        }
    }
}

/// A name for a temporary file has ten letters.
pub proof fn temporary_names_have_ten_letters(r: String)
    requires
        call_ensures(create_temp_name, (), r),
    ensures
        r@.len() == 10,
        is_word(r@),
{
}

/// An extension follows a full stop, and an empty one counts as none.
pub proof fn extensions_follow_a_full_stop(
    name: &str,
    extension: &str,
    with: String,
    without: String,
)
    requires
        call_ensures(add_extension, (name, Some(extension)), with),
        call_ensures(add_extension, (name, None), without),
    ensures
        without@ == name@,
        extension@.len() == 0 ==> with@ == name@,
        extension@.len() > 0 ==> with@ == name@ + seq!['.'] + extension@,
{
}

/// The path of a temporary file is its folder and a name of ten letters with the
/// extension, if there is one.
pub proof fn temporary_files_lie_in_their_folder(
    folder: &GivenPath,
    extension: Option<&str>,
    r: GivenPath,
)
    requires
        call_ensures(create_temp_path, (folder, extension), r),
    ensures
        exists|name: Seq<char>|
            #[trigger] is_word(name) && name.len() == 10 && r@ == joined_given(
                folder@,
                entry(
                    utf16(
                        match extension {
                            Some(ext) => if ext@.len() > 0 {
                                name + seq!['.'] + ext@
                            } else {
                                name
                            },
                            None => name,
                        },
                    ),
                ),
            ),
{
    let ext = match extension {
        Some(ext) => Some(ext@),
        None => None,
    };
    let name = choose|name: Seq<char>|
        #[trigger] is_temp_name(name) && r@ == joined_given(
            folder@,
            entry(utf16(extended_name(name, ext))),
        );
    assert(is_word(name));
}

/// What a launched process changes is tracked by its own number, and with its
/// children exactly if the options do not leave them out.
pub proof fn a_launched_process_is_tracked(
    options: &LaunchOptions,
    pid: Option<u32>,
    r: TrackOptions,
)
    requires
        call_ensures(launched_track_options, (options, pid), r),
    ensures
        r.pid == pid,
        r.no_children <==> options.no_children,
{
}

} // verus!
