//! Packing the changed files: which of them go into the archive, under which
//! names, and what is said of them there.

use vstd::prelude::*;
use vstd::string::*;

use crate::changes::{
    inserted_all, inserted_names_are_kept, with_names, ChangeMap, ItemMap,
};
use crate::item::ItemMetadata;
use crate::monitor::procmon::RegistryKey;
use crate::options::{MonitorOptions, PackerOptions};
use crate::path::{
    are_dot_free_readings, are_readings, file_name_of, is_below, is_dot_free, lexical_normal_form,
    normal_form_is_dot_free, path_key, path_text, path_views, rooted, ComponentModel,
    PathComponent, WinPath,
};
use crate::text::utf16_lossy;

verus! {

/// The dollar sign.
pub const DOLLAR: u16 = 0x24;

/// The folder of the archive that takes the files.
pub const FILES_FOLDER: &'static str = "files/";

/// The name for a file that has none.
pub const UNKNOWN_FILE: &'static str = "unknown_file";

/// The name of the description of the archive.
pub const METADATA_NAME: &'static str = "metadata.json";

/// What stands in a name of the archive for the character `c`.
pub open spec fn zip_char(c: char) -> char {
    if c == '\\' {
        '/'
    } else if c == ':' || c == '|' || c == '<' || c == '>' || c == '"' || c == '*' || c == '?' {
        '_'
    } else {
        c
    }
}

/// `text` with every character that a name of the archive must not hold
/// replaced.
pub open spec fn zip_text(text: Seq<char>) -> Seq<char> {
    text.map_values(|c: char| zip_char(c))
}

/// The part of a file's path by which the archive names it: what follows the
/// base, or the bare name where the file lies elsewhere.
pub open spec fn relative_text(file: Seq<ComponentModel>, base: Seq<ComponentModel>) -> Seq<char> {
    if is_below(file, base) {
        utf16_lossy(path_text(file.skip(base.len() as int)))
    } else {
        match file_name_of(file) {
            Some(name) => utf16_lossy(name),
            None => UNKNOWN_FILE@,
        }
    }
}

/// The name of a file in the archive.
pub open spec fn zip_entry(file: Seq<ComponentModel>, base: Seq<ComponentModel>) -> Seq<char> {
    FILES_FOLDER@ + zip_text(relative_text(file, base))
}

/// The path names a file that the file system keeps for itself: its name starts
/// with a dollar sign, and it lies in the root of a volume.
pub open spec fn is_reserved(path: Seq<ComponentModel>) -> bool {
    &&& path.len() >= 3
    &&& path[0] is Prefix
    &&& path[1] is RootDir
    &&& path[2] is Normal
    &&& path[2]->Normal_0.len() > 0
    &&& path[2]->Normal_0[0] == DOLLAR
}

/// What the system makes of the rooted form of a path.
#[derive(Debug)]
pub enum SystemForm {
    /// The canonical path.
    Canonical(WinPath),
    /// No canonical path. Each component, read alone, stands for a path.
    Readings(Vec<WinPath>),
}

pub enum FormModel {
    Canonical(Seq<ComponentModel>),
    Readings(Seq<Seq<ComponentModel>>),
}

impl View for SystemForm {
    type V = FormModel;

    open spec fn view(&self) -> FormModel {
        match *self {
            SystemForm::Canonical(path) => FormModel::Canonical(path@),
            SystemForm::Readings(readings) => FormModel::Readings(path_views(readings@)),
        }
    }
}

/// `form` can be what the system makes of the rooted form of `path`.
pub open spec fn is_form(path: Seq<ComponentModel>, form: FormModel) -> bool {
    form matches FormModel::Readings(readings) ==> are_readings(rooted(path), readings)
}

/// `forms` can be what the system makes of the rooted forms of the paths of
/// `files`.
pub open spec fn are_forms(
    files: Seq<(WinPath, ItemMetadata)>,
    forms: Seq<SystemForm>,
) -> bool {
    &&& forms.len() == files.len()
    &&& forall|i: int| 0 <= i < files.len() ==> is_form((#[trigger] files[i]).0@, forms[i]@)
}

/// The path in its normal form: the one that the system gives, or, where it
/// gives none, the one that follows from the components.
pub open spec fn normalized(path: Seq<ComponentModel>, form: FormModel) -> Seq<ComponentModel> {
    match form {
        FormModel::Canonical(c) => c,
        FormModel::Readings(readings) => lexical_normal_form(rooted(path), readings),
    }
}

/// What is known of the changed files, each under its normal form. Of two files
/// with the same normal form the later one counts.
pub open spec fn normalized_files(
    files: Seq<(WinPath, ItemMetadata)>,
    forms: Seq<SystemForm>,
) -> Map<Seq<ComponentModel>, ItemMetadata>
    decreases files.len(),
{
    if files.len() == 0 || forms.len() != files.len() {
        Map::empty()
    } else {
        normalized_files(files.drop_last(), forms.drop_last()).insert(
            path_key(normalized(files.last().0@, forms.last()@)),
            files.last().1,
        )
    }
}

/// `paths` are the normal forms of `files`.
pub open spec fn normal_forms(
    paths: Seq<WinPath>,
    files: Seq<(WinPath, ItemMetadata)>,
    forms: Seq<SystemForm>,
) -> bool {
    &&& paths.len() == files.len()
    &&& forall|k: int|
        0 <= k < paths.len() ==> (#[trigger] paths[k])@ == normalized(
            files[k].0@,
            forms[k]@,
        )
}

/// How the file for the archive is opened. What it holds is given up in either
/// case.
#[derive(Debug, Clone, Copy, PartialEq, Eq, Structural)]
pub enum OutputMode {
    /// A file that is there is overwritten.
    CreateOrOverwrite,
    /// A file that is there is an error.
    CreateNew,
}

/// What the file system says of a changed file.
#[derive(Debug, Clone, Copy, PartialEq, Eq, Structural)]
pub enum FileProbe {
    /// The file is gone.
    Missing,
    /// The file cannot be opened.
    Unreadable,
    /// The file has so many bytes.
    Length(u64),
}

/// What becomes of a changed file.
#[derive(Debug)]
pub enum FilePlan {
    SkipReserved,
    SkipMissing,
    SkipUnreadable,
    SkipTooLarge { length: u64 },
    /// The file is packed under this name.
    Pack(String),
}

/// The program that wrote an archive.
#[derive(Debug)]
pub struct PackerVersion {
    pub version: String,
    pub branch: String,
    pub commit: String,
    pub build_time: String,
    pub rust_version: String,
    pub rust_channel: String,
}

impl PackerVersion {
    /// The program with the given build.
    pub fn new(
        version: &str,
        branch: &str,
        commit: &str,
        build_time: &str,
        rust_version: &str,
        rust_channel: &str,
    ) -> (r: PackerVersion)
        ensures
            r.version@ == version@,
            r.branch@ == branch@,
            r.commit@ == commit@,
            r.build_time@ == build_time@,
            r.rust_version@ == rust_version@,
            r.rust_channel@ == rust_channel@,
    {
        PackerVersion {
            version: version.to_owned(),
            branch: branch.to_owned(),
            commit: commit.to_owned(),
            build_time: build_time.to_owned(),
            rust_version: rust_version.to_owned(),
            rust_channel: rust_channel.to_owned(),
        }
    }
}

/// The description of an archive. The time is in nanoseconds since 1970.
pub struct PackerMetadata<'a> {
    pub version: PackerVersion,
    pub timestamp: i128,
    pub monitor: &'a MonitorOptions,
    pub packer: &'a PackerOptions,
    pub files: ChangeMap<WinPath>,
    pub registry_keys: ChangeMap<RegistryKey>,
}

/// Packs the changed files of a run.
#[derive(Debug)]
pub struct Packer {
    pub monitor_options: MonitorOptions,
    pub packer_options: PackerOptions,
}

impl Packer {
    pub fn new(monitor_options: MonitorOptions, packer_options: PackerOptions) -> (r: Packer)
        ensures
            r == (Packer { monitor_options, packer_options }),
    {
        Packer { monitor_options, packer_options }
    }

    /// The changed files under their normal forms. For each of `files`, `forms`
    /// holds what the system makes of the rooted form of its path.
    pub fn files_normalized(
        files: &Vec<(WinPath, ItemMetadata)>,
        forms: &Vec<SystemForm>,
    ) -> (r: ChangeMap<WinPath>)
        requires
            are_forms(files@, forms@),
        ensures
            r@ == normalized_files(files@, forms@),
            exists|paths: Seq<WinPath>| #[trigger]
                normal_forms(paths, files@, forms@) && r.listed() == inserted_all(
                    with_names(files@, paths),
                ),
            forall|e: int|
                0 <= e < r.listed().len() ==> exists|k: int|
                    0 <= k < files@.len() && (#[trigger] r.listed()[e]).0@ == normalized(
                        (#[trigger] files@[k]).0@,
                        forms@[k]@,
                    ),
    {
        let mut result: ChangeMap<WinPath> = ItemMap::new();
        let ghost mut paths: Seq<WinPath> = Seq::empty();
        assert(with_names(files@, paths) =~= Seq::empty());
        for i in 0..files.len()
            invariant
                are_forms(files@, forms@),
                result@ == normalized_files(files@.take(i as int), forms@.take(i as int)),
                normal_forms(paths, files@.take(i as int), forms@.take(i as int)),
                result.listed() == inserted_all(with_names(files@, paths)),
        {
            proof {
                assert(files@.take(i + 1).drop_last() =~= files@.take(i as int));
                assert(forms@.take(i + 1).drop_last() =~= forms@.take(i as int));
            }
            let path: WinPath = Self::normalize_path(&files[i].0, &forms[i]);
            proof {
                let before = paths;
                paths = before.push(path);
                assert(with_names(files@, paths).drop_last() =~= with_names(files@, before));
                assert forall|k: int| 0 <= k < paths.len() implies (#[trigger] paths[k])@
                    == normalized(
                    files@.take(i + 1)[k].0@,
                    forms@.take(i + 1)[k]@,
                ) by {
                    if k < i {
                        assert(paths[k] == before[k]);
                        assert(files@.take(i as int)[k] == files@[k]);
                        assert(forms@.take(i as int)[k] == forms@[k]);
                    }
                }
            }
            result.insert(path, files[i].1);
        }
        proof {
            assert(files@.take(files@.len() as int) =~= files@);
            assert(forms@.take(forms@.len() as int) =~= forms@);
            assert forall|e: int| 0 <= e < result.listed().len() implies exists|k: int|
                0 <= k < files@.len() && (#[trigger] result.listed()[e]).0@ == normalized(
                    (#[trigger] files@[k]).0@,
                    forms@[k]@,
                ) by {
                let k = inserted_names_are_kept(with_names(files@, paths), e);
                assert(paths[k]@ == normalized(files@[k].0@, forms@[k]@));
            }
        }
        result
    }

    /// The description of the archive. A monitor that does not follow the
    /// registry gives no `registry_keys`.
    pub fn metadata(
        &self,
        version: PackerVersion,
        timestamp: i128,
        files: ChangeMap<WinPath>,
        registry_keys: Option<ChangeMap<RegistryKey>>,
    ) -> (r: PackerMetadata<'_>)
        ensures
            r.version == version,
            r.timestamp == timestamp,
            *r.monitor == self.monitor_options,
            *r.packer == self.packer_options,
            r.files == files,
            match registry_keys {
                Some(keys) => r.registry_keys == keys,
                None => r.registry_keys@ == Map::<Seq<ComponentModel>, ItemMetadata>::empty(),
            },
    {
        PackerMetadata {
            version,
            timestamp,
            monitor: &self.monitor_options,
            packer: &self.packer_options,
            files,
            registry_keys: match registry_keys {
                Some(keys) => keys,
                None => ItemMap::new(),
            },
        }
    }

    /// How the file for the archive is opened.
    pub fn output_mode(&self) -> (r: OutputMode)
        ensures
            r == (if self.packer_options.overwrite {
                OutputMode::CreateOrOverwrite
            } else {
                OutputMode::CreateNew
            }),
    {
        if self.packer_options.overwrite {
            OutputMode::CreateOrOverwrite
        } else {
            OutputMode::CreateNew
        }
    }

    /// Decides what becomes of a changed file. Both paths are normalised.
    pub fn plan_file(&self, file: &WinPath, base: &WinPath, probe: FileProbe) -> (r: FilePlan)
        ensures
            match r {
                FilePlan::SkipReserved => is_reserved(file@),
                FilePlan::SkipMissing => !is_reserved(file@) && probe == FileProbe::Missing,
                FilePlan::SkipUnreadable => !is_reserved(file@) && probe == FileProbe::Unreadable,
                FilePlan::SkipTooLarge { length } => !is_reserved(file@) && probe
                    == FileProbe::Length(length) && length > self.packer_options.size_limit,
                FilePlan::Pack(name) => !is_reserved(file@) && probe is Length && probe->Length_0
                    <= self.packer_options.size_limit && name@ == zip_entry(file@, base@),
            },
    {
        if Self::is_reserved_path(file) {
            return FilePlan::SkipReserved;
        }
        match probe {
            FileProbe::Missing => FilePlan::SkipMissing,
            FileProbe::Unreadable => FilePlan::SkipUnreadable,
            FileProbe::Length(length) => if length > self.packer_options.size_limit {
                FilePlan::SkipTooLarge { length }
            } else {
                FilePlan::Pack(Self::create_zip_entry_path(file, base))
            },
        }
    }

    /// Tells whether the path names a file that the file system keeps for
    /// itself, such as `$Extend`.
    pub fn is_reserved_path(path: &WinPath) -> (r: bool)
        ensures
            r == is_reserved(path@),
    {
        if path.components.len() < 3 {
            return false;
        }
        assert(path@[0] == path.components@[0]@);
        assert(path@[1] == path.components@[1]@);
        assert(path@[2] == path.components@[2]@);
        match (&path.components[0], &path.components[1], &path.components[2]) {
            (PathComponent::Prefix(_), PathComponent::RootDir, PathComponent::Normal(name)) => {
                name.len() > 0 && name[0] == DOLLAR
            },
            _ => false,
        }
    }

    /// The path in its normal form. `form` is what the system makes of the rooted
    /// form of the path.
    pub fn normalize_path(path: &WinPath, form: &SystemForm) -> (r: WinPath)
        requires
            is_form(path@, form@),
        ensures
            r@ == normalized(path@, form@),
    {
        match form {
            SystemForm::Canonical(c) => c.clone(),
            SystemForm::Readings(readings) => path.clone().into_rooted().normalize_lexically(
                readings,
            ),
        }
    }

    /// The name of a file in the archive. Both paths are normalised.
    pub fn create_zip_entry_path(file: &WinPath, base: &WinPath) -> (r: String)
        ensures
            r@ == zip_entry(file@, base@),
    {
        let relative: String = match file.strip_prefix(base) {
            Some(rest) => String::from_utf16_lossy(rest.to_units().as_slice()),
            None => match file.file_name() {
                Some(name) => String::from_utf16_lossy(name.as_slice()),
                None => UNKNOWN_FILE.to_owned(),
            },
        };
        let ghost text = relative@;
        let mut entry: String = FILES_FOLDER.to_owned();
        for c in it: relative.as_str().chars()
            invariant
                it.seq() == text,
                entry@ == FILES_FOLDER@ + zip_text(text.take(it.index())),
        {
            let replacement: char = if c == '\\' {
                '/'
            } else if c == ':' || c == '|' || c == '<' || c == '>' || c == '"' || c == '*' || c
                == '?' {
                '_'
            } else {
                c
            };
            entry.push(replacement);
            proof {
                let index = it.index();
                assert(zip_text(text.take(index + 1)) =~= zip_text(text.take(index)).push(
                    zip_char(c),
                ));
            }
        }
        assert(text.take(text.len() as int) =~= text);
        entry
    }
}

/// A name of the archive starts with the folder for the files, and none of its
/// characters is one that Windows refuses in a name.
pub proof fn zip_entries_are_safe(file: Seq<ComponentModel>, base: Seq<ComponentModel>)
    ensures
        zip_entry(file, base).take(FILES_FOLDER@.len() as int) == FILES_FOLDER@,
        forall|i: int|
            0 <= i < zip_entry(file, base).len() ==> {
                let c = #[trigger] zip_entry(file, base)[i];
                c != '\\' && c != ':' && c != '|' && c != '<' && c != '>' && c != '"' && c != '*'
                    && c != '?'
            },
{
    reveal_strlit("files/");
    assert(zip_entry(file, base).take(FILES_FOLDER@.len() as int) =~= FILES_FOLDER@);
}

/// A packed file lies at or below the folder for the files: no part of what names
/// it in the archive leads back up, unless a name of its path stands for `.` or
/// `..` when it is read alone.
pub proof fn zip_entries_do_not_lead_up(
    path: Seq<ComponentModel>,
    readings: Seq<Seq<ComponentModel>>,
    base: Seq<ComponentModel>,
)
    requires
        are_dot_free_readings(rooted(path), readings),
        is_below(normalized(path, FormModel::Readings(readings)), base),
    ensures
        is_dot_free(normalized(path, FormModel::Readings(readings)).skip(base.len() as int)),
{
    let file = normalized(path, FormModel::Readings(readings));
    normal_form_is_dot_free(rooted(path), readings);
    assert forall|i: int| 0 <= i < file.skip(base.len() as int).len() implies !((
    #[trigger] file.skip(base.len() as int)[i]) is CurDir) && !(file.skip(base.len() as int)[i]
        is ParentDir) by {
        assert(file.skip(base.len() as int)[i] == file[i + base.len()]);
    }
}

/// Every changed file is described under its normal form, and nothing else is.
pub proof fn changed_files_are_described(
    files: Seq<(WinPath, ItemMetadata)>,
    forms: Seq<SystemForm>,
    path: Seq<ComponentModel>,
)
    requires
        forms.len() == files.len(),
    ensures
        normalized_files(files, forms).dom().contains(path) <==> exists|i: int|
            0 <= i < files.len() && path_key(
                normalized((#[trigger] files[i]).0@, forms[i]@),
            ) == path,
        normalized_files(files, forms).dom().contains(path) ==> exists|i: int|
            0 <= i < files.len() && path_key(
                normalized((#[trigger] files[i]).0@, forms[i]@),
            ) == path && files[i].1 == normalized_files(files, forms)[path],
    decreases files.len(),
{
    if files.len() > 0 {
        let front = files.drop_last();
        let front_forms = forms.drop_last();
        changed_files_are_described(front, front_forms, path);
        let last = files.len() - 1;
        assert(files[last] == files.last());
        assert(forms[last] == forms.last());
        assert(forall|i: int|
            0 <= i < front.len() ==> #[trigger] front[i] == files[i] && front_forms[i] == forms[i]);
        assert forall|i: int| 0 <= i < files.len() implies i == last || (#[trigger] files[i]
            == front[i] && 0 <= i < front.len()) by {}
        if normalized_files(files, forms).dom().contains(path) && path_key(
            normalized(files[last].0@, forms[last]@),
        ) != path {
            let i = choose|i: int|
                0 <= i < front.len() && path_key(
                    normalized((#[trigger] front[i]).0@, front_forms[i]@),
                ) == path && front[i].1 == normalized_files(front, front_forms)[path];
            assert(files[i] == front[i]);
        }
    }
}

} // verus!
