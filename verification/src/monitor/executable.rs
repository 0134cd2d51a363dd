//! The Process Monitor executable: where it is looked for, how it is told apart
//! from anything else, and how it is called.

use sha1::Digest;
use vstd::prelude::*;

use crate::given::{entry, given_view, given_views, joined_given, GivenModel, GivenPath};
use crate::monitor::procmon::ProcmonMonitor;
use crate::options::MonitorOptions;
use crate::path::copy_units;
use crate::text::{encode_utf16, utf16};

verus! {

/// The version of the executable that is known to work.
pub const VERSION: &'static str = "4.01";

/// Where the executable is downloaded from.
pub const URL: &'static str = "https://live.sysinternals.com/Procmon64.exe";

/// The name of the executable for 64 bits.
pub const PROCMON_64: &'static str = "Procmon64.exe";

/// The name of the executable for 32 bits.
pub const PROCMON_32: &'static str = "Procmon.exe";

/// The SHA-1 digest of the executable for 32 bits.
pub const HASH: [u8; 20] = [
    0xbc,
    0x18,
    0xa6,
    0x7a,
    0xd4,
    0x05,
    0x7d,
    0xd3,
    0x6f,
    0x89,
    0x6a,
    0x4d,
    0x41,
    0x1b,
    0x8f,
    0xc5,
    0xb0,
    0x6e,
    0x5b,
    0x2f,
];

/// The SHA-1 digest of the executable for 64 bits.
pub const HASH_64: [u8; 20] = [
    0x8e,
    0xd8,
    0x88,
    0xa0,
    0x28,
    0x61,
    0x14,
    0x2e,
    0x5e,
    0xb5,
    0x76,
    0x38,
    0x55,
    0x68,
    0xc2,
    0xba,
    0x0d,
    0xdd,
    0x85,
    0x89,
];

/// The SHA-1 digest of `data`, as `sha1::Sha1` computes it.
pub uninterp spec fn sha1_digest(data: Seq<u8>) -> Seq<u8>;

/// SHA-1 is defined for messages of so many bytes.
pub open spec fn is_digestible(len: nat) -> bool {
    len < 0x2000_0000_0000_0000
}

/// `sha1::Sha1::digest`: the digest of `data`, which has twenty bytes.
#[verifier::external_body]
fn sha1(data: &[u8]) -> (r: Vec<u8>)
    requires
        is_digestible(data@.len()),
    ensures
        r@ == sha1_digest(data@),
        r@.len() == 20,
{
    sha1::Sha1::digest(data).to_vec()
}

/// The digest is that of a known executable.
pub open spec fn is_known_digest(digest: Seq<u8>) -> bool {
    digest == HASH@ || digest == HASH_64@
}

fn same_bytes(a: &[u8], b: &[u8; 20]) -> (r: bool)
    ensures
        r == (a@ == b@),
{
    if a.len() != 20 {
        assert(a@.len() == a.len());
        assert(b@.len() == 20);
        return false;
    }
    for i in 0..20usize
        invariant
            a@.len() == 20,
            forall|k: int| 0 <= k < i ==> a@[k] == b@[k],
    {
        if a[i] != b[i] {
            return false;
        }
    }
    assert(a@ =~= b@);
    true
}

/// Tells whether the digest is that of a known executable.
pub fn is_procmon_digest(digest: &[u8]) -> (r: bool)
    ensures
        r == is_known_digest(digest@),
{
    same_bytes(digest, &HASH) || same_bytes(digest, &HASH_64)
}

/// Tells whether `contents` are those of a known executable.
pub fn is_procmon(contents: &[u8]) -> (r: bool)
    ensures
        r == (is_digestible(contents@.len()) && is_known_digest(sha1_digest(contents@))),
{
    assert(contents@.len() == contents.len());
    if contents.len() as u64 >= 0x2000_0000_0000_0000 {
        return false;
    }
    let digest: Vec<u8> = sha1(contents);
    is_procmon_digest(digest.as_slice())
}

/// Why an executable is not used.
#[derive(Debug, Clone, Copy, PartialEq, Eq, Structural)]
pub enum ProcmonPathError {
    /// There is no such file.
    DoesNotExist,
    /// The file is not a known executable.
    Invalid,
}

/// The path of the file `name` in the folder `folder`.
pub open spec fn file_in(folder: GivenModel, name: Seq<char>) -> GivenModel {
    joined_given(folder, entry(utf16(name)))
}

/// The places where the executable is looked for, one after the other: in the
/// current folder, if there is one, for 64 bits; then in each of the folders of
/// the search path, for 64 bits and for 32 bits.
pub open spec fn places(
    current: Option<GivenModel>,
    folders: Seq<GivenPath>,
) -> Seq<GivenModel>
    decreases folders.len(),
{
    if folders.len() == 0 {
        match current {
            Some(folder) => seq![file_in(folder, PROCMON_64@)],
            None => Seq::empty(),
        }
    } else {
        places(current, folders.drop_last()).push(file_in(folders.last()@, PROCMON_64@)).push(
            file_in(folders.last()@, PROCMON_32@),
        )
    }
}

/// The places where the executable is looked for.
pub fn procmon_places(current: &Option<GivenPath>, folders: &Vec<GivenPath>) -> (r: Vec<GivenPath>)
    ensures
        given_views(r@) == places(given_view(*current), folders@),
{
    let ghost current_view = given_view(*current);
    let mut found: Vec<GivenPath> = Vec::new();
    if let Some(folder) = current {
        found.push(folder.join(&GivenPath::entry(encode_utf16(PROCMON_64))));
    }
    assert(given_views(found@) =~= places(current_view, folders@.take(0)));
    for i in 0..folders.len()
        invariant
            given_views(found@) == places(current_view, folders@.take(i as int)),
    {
        let ghost before = given_views(found@);
        found.push(folders[i].join(&GivenPath::entry(encode_utf16(PROCMON_64))));
        found.push(folders[i].join(&GivenPath::entry(encode_utf16(PROCMON_32))));
        proof {
            assert(folders@.take(i + 1).drop_last() =~= folders@.take(i as int));
            assert(given_views(found@) =~= before.push(
                file_in(folders@[i as int]@, PROCMON_64@),
            ).push(file_in(folders@[i as int]@, PROCMON_32@)));
        }
    }
    assert(folders@.take(folders@.len() as int) =~= folders@);
    found
}

/// `i` is the first place at which there is a file.
pub open spec fn is_first_file(exists: Seq<bool>, i: int) -> bool {
    &&& 0 <= i < exists.len()
    &&& exists[i]
    &&& forall|k: int| 0 <= k < i ==> !exists[k]
}

/// There is a file at one of the places.
pub open spec fn is_any_file(exists: Seq<bool>) -> bool {
    exists|i: int| 0 <= i < exists.len() && #[trigger] exists[i]
}

/// Picks the executable: the one that the options name, or else the first of
/// `places` at which there is a file. With neither it has to be downloaded.
pub fn choose_procmon(options: &MonitorOptions, places: &Vec<GivenPath>, exists: &Vec<bool>) -> (r:
    Option<GivenPath>)
    requires
        exists@.len() == places@.len(),
    ensures
        match options.procmon_path {
            Some(path) => r is Some && r->0@ == path@,
            None => match r {
                Some(path) => exists|i: int|
                    #[trigger] is_first_file(exists@, i) && places@[i]@ == path@,
                None => forall|k: int| 0 <= k < exists@.len() ==> !#[trigger] exists@[k],
            },
        },
        r is Some <==> options.procmon_path is Some || is_any_file(exists@),
{
    if let Some(path) = &options.procmon_path {
        return Some(path.clone());
    }
    for i in 0..exists.len()
        invariant
            exists@.len() == places@.len(),
            options.procmon_path is None,
            forall|k: int| 0 <= k < i ==> !#[trigger] exists@[k],
    {
        if exists[i] {
            assert(is_first_file(exists@, i as int));
            return Some(places[i].clone());
        }
    }
    None
}

/// Where the executable is downloaded to.
pub fn download_place(temp: &GivenPath) -> (r: GivenPath)
    ensures
        r@ == file_in(temp@, PROCMON_64@),
{
    temp.join(&GivenPath::entry(encode_utf16(PROCMON_64)))
}

impl ProcmonMonitor {
    /// Settles on the executable at `path`, which holds `contents` if it is
    /// there.
    pub fn resolve_procmon_path(path: GivenPath, contents: Option<&[u8]>) -> (r: Result<
        GivenPath,
        ProcmonPathError,
    >)
        ensures
            match contents {
                None => r is Err && r->Err_0 == ProcmonPathError::DoesNotExist,
                Some(bytes) => if is_digestible(bytes@.len()) && is_known_digest(
                    sha1_digest(bytes@),
                ) {
                    r is Ok && r->Ok_0 == path
                } else {
                    r is Err && r->Err_0 == ProcmonPathError::Invalid
                },
            },
    {
        match contents {
            None => Err(ProcmonPathError::DoesNotExist),
            Some(bytes) => if is_procmon(bytes) {
                Ok(path)
            } else {
                Err(ProcmonPathError::Invalid)
            },
        }
    }
}

/// One call of the executable.
#[derive(Debug)]
pub enum ProcmonCommand {
    /// Gather events in `backing_file`, filtered as `config` says.
    Record { backing_file: GivenPath, config: GivenPath },
    /// Wait until events are gathered.
    WaitForIdle,
    /// Stop gathering events.
    Terminate,
    /// Write the events in `log` to `output`.
    Export { log: GivenPath, output: GivenPath },
}

/// What the command adds to the arguments that every call has.
pub open spec fn own_arguments(command: ProcmonCommand) -> Seq<Seq<u16>> {
    match command {
        ProcmonCommand::Record { backing_file, config } => seq![
            utf16("/BackingFile"@),
            backing_file.text@,
            utf16("/LoadConfig"@),
            config.text@,
        ],
        ProcmonCommand::WaitForIdle => seq![utf16("/WaitForIdle"@)],
        ProcmonCommand::Terminate => seq![utf16("/Terminate"@)],
        ProcmonCommand::Export { log, output } => seq![
            utf16("/OpenLog"@),
            log.text@,
            utf16("/SaveAs"@),
            output.text@,
        ],
    }
}

/// The arguments of a call.
pub open spec fn call_arguments(command: ProcmonCommand) -> Seq<Seq<u16>> {
    seq![utf16("/Minimized"@), utf16("/AcceptEula"@), utf16("/Quiet"@)] + own_arguments(command)
}

/// Texts behind their views.
pub open spec fn text_views(texts: Seq<Vec<u16>>) -> Seq<Seq<u16>> {
    texts.map_values(|t: Vec<u16>| t@)
}

impl ProcmonCommand {
    /// The arguments of the call.
    pub fn arguments(&self) -> (r: Vec<Vec<u16>>)
        ensures
            text_views(r@) == call_arguments(*self),
    {
        let mut arguments: Vec<Vec<u16>> = Vec::new();
        arguments.push(encode_utf16("/Minimized"));
        arguments.push(encode_utf16("/AcceptEula"));
        arguments.push(encode_utf16("/Quiet"));
        match self {
            ProcmonCommand::Record { backing_file, config } => {
                arguments.push(encode_utf16("/BackingFile"));
                arguments.push(copy_units(&backing_file.text));
                arguments.push(encode_utf16("/LoadConfig"));
                arguments.push(copy_units(&config.text));
            },
            ProcmonCommand::WaitForIdle => {
                arguments.push(encode_utf16("/WaitForIdle"));
            },
            ProcmonCommand::Terminate => {
                arguments.push(encode_utf16("/Terminate"));
            },
            ProcmonCommand::Export { log, output } => {
                arguments.push(encode_utf16("/OpenLog"));
                arguments.push(copy_units(&log.text));
                arguments.push(encode_utf16("/SaveAs"));
                arguments.push(copy_units(&output.text));
            },
        }
        assert(text_views(arguments@) =~= call_arguments(*self));
        arguments
    }
}

} // verus!
