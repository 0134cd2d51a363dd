//! Names for temporary files, and the choice of the thread to resume.

use vstd::prelude::*;
use vstd::string::*;

use crate::given::{entry, joined_given, GivenModel, GivenPath};
use crate::text::{encode_utf16, utf16};

verus! {

/// A letter of the English alphabet.
pub open spec fn is_letter(c: char) -> bool {
    'a' <= c <= 'z' || 'A' <= c <= 'Z'
}

/// `fastrand::alphabetic`: some letter from a to z or from A to Z. Which one is
/// left to chance.
#[verifier::external_body]
fn random_letter() -> (r: char)
    ensures
        is_letter(r),
{
    fastrand::alphabetic()
}

/// A name that can be made up for a temporary file: ten letters.
pub open spec fn is_temp_name(name: Seq<char>) -> bool {
    &&& name.len() == 10
    &&& forall|i: int| 0 <= i < name.len() ==> is_letter(#[trigger] name[i])
}

/// Makes up a name for a temporary file.
pub fn create_temp_name() -> (r: String)
    ensures
        is_temp_name(r@),
{
    let mut name: String = String::new();
    for i in 0..10usize
        invariant
            name@.len() == i,
            forall|k: int| 0 <= k < i ==> is_letter(#[trigger] name@[k]),
    {
        name.push(random_letter());
    }
    name
}

/// The file name that consists of `name` and the extension `extension`; an
/// empty extension counts as none.
pub open spec fn extended_name(name: Seq<char>, extension: Option<Seq<char>>) -> Seq<char> {
    match extension {
        Some(ext) => if ext.len() > 0 {
            name + seq!['.'] + ext
        } else {
            name
        },
        None => name,
    }
}

/// Adds the extension `extension` to the name `name`.
pub fn add_extension(name: &str, extension: Option<&str>) -> (r: String)
    ensures
        r@ == extended_name(
            name@,
            match extension {
                Some(ext) => Some(ext@),
                None => None,
            },
        ),
{
    let mut r: String = name.to_owned();
    if let Some(ext) = extension {
        if !ext.is_empty() {
            r.push('.');
            r.append(ext);
            assert(r@ =~= name@ + seq!['.'] + ext@);
        }
    }
    r
}

/// `path` can be made up for a temporary file in the folder `folder`.
pub open spec fn is_temp_path(
    path: GivenModel,
    folder: GivenModel,
    extension: Option<Seq<char>>,
) -> bool {
    exists|name: Seq<char>|
        #[trigger] is_temp_name(name) && path == joined_given(
            folder,
            entry(utf16(extended_name(name, extension))),
        )
}

/// Makes up a path for a temporary file in the folder `folder`. Whether there is
/// such a file already is for the caller to see.
pub fn create_temp_path(folder: &GivenPath, extension: Option<&str>) -> (r: GivenPath)
    requires
        extension matches Some(ext) ==> forall|i: int|
            0 <= i < ext@.len() ==> #[trigger] ext@[i] != '\\' && ext@[i] != '/',
    ensures
        is_temp_path(
            r@,
            folder@,
            match extension {
                Some(ext) => Some(ext@),
                None => None,
            },
        ),
{
    let name: String = create_temp_name();
    let full: String = add_extension(name.as_str(), extension);
    folder.join(&GivenPath::entry(encode_utf16(full.as_str())))
}

/// A thread of the system and the process that it belongs to.
#[derive(Debug, Clone, Copy, PartialEq, Eq, Structural)]
pub struct ThreadEntry {
    pub thread_id: u32,
    pub owner_process_id: u32,
}

/// Why a process cannot be resumed.
#[derive(Debug, Clone, Copy, PartialEq, Eq, Structural)]
pub enum ResumeError {
    /// No thread belongs to the process.
    NoThread { pid: u32 },
}

/// `i` is the place of the last thread of the process `pid`.
pub open spec fn is_last_thread_of(threads: Seq<ThreadEntry>, pid: u32, i: int) -> bool {
    &&& 0 <= i < threads.len()
    &&& threads[i].owner_process_id == pid
    &&& forall|k: int| i < k < threads.len() ==> (#[trigger] threads[k]).owner_process_id != pid
}

/// Some thread belongs to the process `pid`.
pub open spec fn has_thread(threads: Seq<ThreadEntry>, pid: u32) -> bool {
    exists|k: int| 0 <= k < threads.len() && (#[trigger] threads[k]).owner_process_id == pid
}

/// Picks the thread by which the process `pid` is resumed: of the threads of
/// the system, in the order in which the system lists them, the last one that
/// belongs to the process.
pub fn resume_process(pid: u32, threads: &Vec<ThreadEntry>) -> (r: Result<u32, ResumeError>)
    ensures
        match r {
            Ok(thread_id) => exists|i: int|
                #[trigger] is_last_thread_of(threads@, pid, i) && threads@[i].thread_id
                    == thread_id,
            Err(e) => e == (ResumeError::NoThread { pid }) && forall|k: int|
                0 <= k < threads@.len() ==> (#[trigger] threads@[k]).owner_process_id != pid,
        },
        r is Ok <==> has_thread(threads@, pid),
{
    let mut left: usize = threads.len();
    while left > 0
        invariant
            left <= threads@.len(),
            forall|k: int|
                left <= k < threads@.len() ==> (#[trigger] threads@[k]).owner_process_id != pid,
        decreases left,
    {
        left = left - 1;
        if threads[left].owner_process_id == pid {
            assert(is_last_thread_of(threads@, pid, left as int));
            return Ok(threads[left].thread_id);
        }
    }
    Err(ResumeError::NoThread { pid })
}

} // verus!
