//! Which files go into the archive, and under which names.

use vstd::prelude::*;

use crate::changes::ChangeMap;
use crate::item::ItemMetadata;
use crate::laws::items::{lemma_paths_of_keys, put_in_turn, the_last_value_counts};
use crate::laws::paths::{lead_to_the_same, lemma_starts_with};
use crate::laws::text::text_is_decoded_piece_by_piece;
use crate::monitor::procmon::RegistryKey;
use crate::packer::{
    are_forms, normalized_files, zip_text, FilePlan, FileProbe, OutputMode, Packer, PackerMetadata,
    PackerVersion, SystemForm,
};
use crate::path::{path_key, path_text, ComponentModel, WinPath};
use crate::text::{utf16, utf16_keeps_text, utf16_lossy};

verus! {

/// What stands for a character in a name of the archive.
pub open spec fn stands_for(c: char) -> char {
    if c == '\\' {
        '/'
    } else if c == ':' || c == '|' || c == '<' || c == '>' || c == '"' || c == '*' || c == '?' {
        '_'
    } else {
        c
    }
}

/// A name as it stands in the archive.
pub open spec fn archived(name: Seq<u16>) -> Seq<char> {
    let text = utf16_lossy(name);
    Seq::new(text.len(), |i: int| stands_for(text[i]))
}

/// The names with a slash between any two of them.
pub open spec fn slashed(names: Seq<Seq<char>>) -> Seq<char>
    decreases names.len(),
{
    if names.len() == 0 {
        Seq::empty()
    } else if names.len() == 1 {
        names[0]
    } else {
        slashed(names.drop_last()) + seq!['/'] + names.last()
    }
}

/// `file` lies at `base`, or the entries `names` lead from there to it.
pub open spec fn lies_below(
    file: Seq<ComponentModel>,
    base: Seq<ComponentModel>,
    names: Seq<Seq<u16>>,
) -> bool {
    &&& file.len() == base.len() + names.len()
    &&& forall|i: int|
        0 <= i < base.len() ==> lead_to_the_same(#[trigger] file[i], base[i])
    &&& forall|i: int|
        0 <= i < names.len() ==> file[base.len() as int + i] == ComponentModel::Normal(#[trigger] names[i])
}

proof fn lemma_names_in_archive(rest: Seq<ComponentModel>, names: Seq<Seq<u16>>)
    requires
        rest.len() == names.len(),
        forall|i: int| 0 <= i < names.len() ==> rest[i] == ComponentModel::Normal(#[trigger] names[i]),
    ensures
        zip_text(utf16_lossy(path_text(rest))) == slashed(
            Seq::new(names.len(), |i: int| archived(names[i])),
        ),
    decreases rest.len(),
{
    let shown = Seq::new(names.len(), |i: int| archived(names[i]));
    if rest.len() == 0 {
        assert(path_text(rest) =~= Seq::empty());
        assert(zip_text(utf16_lossy(path_text(rest))) =~= slashed(shown));
    } else {
        let front = rest.drop_last();
        let last = names.last();
        assert forall|i: int| 0 <= i < names.drop_last().len() implies front[i]
            == ComponentModel::Normal(#[trigger] names.drop_last()[i]) by {
            assert(rest[i] == ComponentModel::Normal(names[i]));
        }
        lemma_names_in_archive(front, names.drop_last());
        assert(rest.last() == ComponentModel::Normal(names[names.len() - 1]));
        assert(shown.drop_last() =~= Seq::new(
            names.drop_last().len(),
            |i: int| archived(names.drop_last()[i]),
        ));
        assert(zip_text(utf16_lossy(last)) =~= archived(last));
        if rest.len() == 1 {
            assert(front =~= Seq::empty());
            assert(path_text(rest) =~= last);
            assert(shown[0] == archived(last));
        } else {
            assert(front.last() == rest[rest.len() - 2]);
            assert(rest[rest.len() - 2] == ComponentModel::Normal(names[names.len() - 2]));
            let separator: Seq<u16> = seq![0x5cu16];
            let tail = separator + last;
            assert(path_text(rest) =~= path_text(front) + tail);
            text_is_decoded_piece_by_piece(path_text(front), tail);
            lemma_separated(last);
            let start = utf16_lossy(path_text(front));
            let end = utf16_lossy(last);
            assert(zip_text(start + (seq!['\\'] + end)) =~= zip_text(start) + seq!['/']
                + zip_text(end));
            assert(slashed(shown) == slashed(shown.drop_last()) + seq!['/'] + shown.last());
        }
    }
}

proof fn lemma_separated(name: Seq<u16>)
    ensures
        utf16_lossy(seq![0x5cu16] + name) == seq!['\\'] + utf16_lossy(name),
{
    let all = seq![0x5cu16] + name;
    assert(all.drop_first() =~= name);
    assert(0x5cu16 as char == '\\');
}

/// A file at or below the base is named by all the names that lead from the base
/// to it, in their order, with slashes between them; in each of them, what Windows
/// refuses in a name is replaced.
pub proof fn a_file_is_archived_by_its_names_below_the_base(
    file: &WinPath,
    base: &WinPath,
    names: Seq<Seq<u16>>,
    r: String,
)
    requires
        call_ensures(Packer::create_zip_entry_path, (file, base), r),
        lies_below(file@, base@, names),
    ensures
        r@ == "files/"@ + slashed(Seq::new(names.len(), |i: int| archived(names[i]))),
{
    lemma_starts_with(file@, base@);
    let rest = file@.skip(base@.len() as int);
    assert forall|i: int| 0 <= i < names.len() implies rest[i] == ComponentModel::Normal(
        #[trigger] names[i],
    ) by {
        assert(file@[base@.len() as int + i] == ComponentModel::Normal(names[i]));
    }
    lemma_names_in_archive(rest, names);
}

/// A file that lies elsewhere is named by its own name alone, and one without a
/// name by a name for such files.
pub proof fn a_file_from_elsewhere_is_archived_by_its_name(
    file: &WinPath,
    base: &WinPath,
    r: String,
)
    requires
        call_ensures(Packer::create_zip_entry_path, (file, base), r),
        base@.len() > file@.len() || exists|i: int|
            0 <= i < base@.len() && !lead_to_the_same(#[trigger] file@[i], base@[i]),
    ensures
        file@.len() > 0 && file@.last() is Normal ==> r@ == "files/"@ + archived(
            file@.last()->Normal_0,
        ),
        file@.len() == 0 || !(file@.last() is Normal) ==> r@ == "files/unknown_file"@,
{
    lemma_starts_with(file@, base@);
    if file@.len() > 0 && file@.last() is Normal {
        assert(zip_text(utf16_lossy(file@.last()->Normal_0)) =~= archived(file@.last()->Normal_0));
    } else {
        reveal_strlit("files/");
        reveal_strlit("unknown_file");
        reveal_strlit("files/unknown_file");
        assert(zip_text("unknown_file"@) =~= "unknown_file"@);
        assert(r@ =~= "files/unknown_file"@);
    }
}

/// The name holds something, and nothing that is replaced in the archive.
pub open spec fn is_kept(name: Seq<char>) -> bool {
    &&& name.len() > 0
    &&& forall|i: int|
        0 <= i < name.len() ==> stands_for(#[trigger] name[i]) == name[i] && name[i] != '/'
}

proof fn lemma_kept(name: Seq<char>)
    requires
        is_kept(name),
    ensures
        archived(utf16(name)) == name,
{
    utf16_keeps_text(name);
    assert(archived(utf16(name)) =~= name);
}

proof fn lemma_slashed_last(names: Seq<Seq<char>>)
    requires
        names.len() > 0,
        forall|i: int| 0 <= i < names.len() ==> is_kept(#[trigger] names[i]),
    ensures
        slashed(names).len() >= names.last().len(),
        slashed(names).skip(slashed(names).len() - names.last().len()) == names.last(),
        names.len() > 1 ==> slashed(names).len() > names.last().len() && slashed(
            names,
        )[slashed(names).len() - names.last().len() - 1] == '/' && slashed(names).take(
            slashed(names).len() - names.last().len() - 1,
        ) == slashed(names.drop_last()),
{
    if names.len() > 1 {
        let front = slashed(names.drop_last());
        assert(slashed(names).take(front.len() as int) =~= front);
        assert(slashed(names).skip(front.len() + 1int) =~= names.last());
    } else {
        assert(names.last() == names[0]);
        assert(slashed(names).skip(0) =~= names[0]);
    }
}

proof fn lemma_slashed_differ(a: Seq<Seq<char>>, b: Seq<Seq<char>>)
    requires
        forall|i: int| 0 <= i < a.len() ==> is_kept(#[trigger] a[i]),
        forall|i: int| 0 <= i < b.len() ==> is_kept(#[trigger] b[i]),
        slashed(a) == slashed(b),
    ensures
        a == b,
    decreases a.len(),
{
    if a.len() == 0 || b.len() == 0 {
        if a.len() > 0 {
            lemma_slashed_last(a);
            assert(is_kept(a[a.len() - 1]));
        }
        if b.len() > 0 {
            lemma_slashed_last(b);
            assert(is_kept(b[b.len() - 1]));
        }
        assert(a =~= b);
    } else {
        lemma_slashed_last(a);
        lemma_slashed_last(b);
        let all = slashed(a);
        let x = a.last();
        let y = b.last();
        assert(is_kept(a[a.len() - 1]));
        assert(is_kept(b[b.len() - 1]));
        if x.len() < y.len() {
            if a.len() > 1 {
                let at = all.len() - x.len() - 1;
                assert(all.skip(all.len() - y.len())[at - (all.len() - y.len())] == '/');
                assert(y[at - (all.len() - y.len())] == '/');
            } else {
                assert(all.len() == x.len());
            }
            assert(false);
        }
        if y.len() < x.len() {
            if b.len() > 1 {
                let at = all.len() - y.len() - 1;
                assert(all.skip(all.len() - x.len())[at - (all.len() - x.len())] == '/');
                assert(x[at - (all.len() - x.len())] == '/');
            } else {
                assert(all.len() == y.len());
            }
            assert(false);
        }
        assert(x == y);
        if a.len() == 1 {
            assert(all.len() == x.len());
            assert(b.len() == 1);
            assert(a =~= b);
        } else {
            assert(b.len() > 1) by {
                if b.len() == 1 {
                    assert(all.len() == y.len());
                }
            }
            lemma_slashed_differ(a.drop_last(), b.drop_last());
            assert(a =~= a.drop_last().push(x));
            assert(b =~= b.drop_last().push(y));
        }
    }
}

/// Two files below the base whose names hold nothing that is replaced get
/// different names in the archive, unless the same names lead to them.
pub proof fn different_files_get_different_names(
    base: &WinPath,
    file: &WinPath,
    other: &WinPath,
    file_names: Seq<Seq<char>>,
    other_names: Seq<Seq<char>>,
    r: String,
    s: String,
)
    requires
        call_ensures(Packer::create_zip_entry_path, (file, base), r),
        call_ensures(Packer::create_zip_entry_path, (other, base), s),
        forall|i: int| 0 <= i < file_names.len() ==> is_kept(#[trigger] file_names[i]),
        forall|i: int| 0 <= i < other_names.len() ==> is_kept(#[trigger] other_names[i]),
        lies_below(file@, base@, Seq::new(file_names.len(), |i: int| utf16(file_names[i]))),
        lies_below(other@, base@, Seq::new(other_names.len(), |i: int| utf16(other_names[i]))),
        file_names != other_names,
    ensures
        r@ != s@,
        r@ == "files/"@ + slashed(file_names),
{
    let a = Seq::new(file_names.len(), |i: int| utf16(file_names[i]));
    let b = Seq::new(other_names.len(), |i: int| utf16(other_names[i]));
    a_file_is_archived_by_its_names_below_the_base(file, base, a, r);
    a_file_is_archived_by_its_names_below_the_base(other, base, b, s);
    assert forall|i: int| 0 <= i < a.len() implies archived(#[trigger] a[i]) == file_names[i] by {
        assert(is_kept(file_names[i]));
        lemma_kept(file_names[i]);
    }
    assert forall|i: int| 0 <= i < b.len() implies archived(#[trigger] b[i]) == other_names[i] by {
        assert(is_kept(other_names[i]));
        lemma_kept(other_names[i]);
    }
    assert(Seq::new(a.len(), |i: int| archived(a[i])) =~= file_names);
    assert(Seq::new(b.len(), |i: int| archived(b[i])) =~= other_names);
    if r@ == s@ {
        reveal_strlit("files/");
        let start = "files/"@;
        assert(r@.skip(start.len() as int) =~= slashed(file_names));
        assert(s@.skip(start.len() as int) =~= slashed(other_names));
        lemma_slashed_differ(file_names, other_names);
    }
}

/// A file is reserved exactly if its path starts with a prefix and a root, and the
/// name behind them starts with a dollar sign.
pub proof fn names_with_a_dollar_sign_are_reserved(path: &WinPath, r: bool)
    requires
        call_ensures(Packer::is_reserved_path, (path,), r),
    ensures
        r <==> path@.len() >= 3 && path@[0] is Prefix && path@[1] is RootDir && (
        path@[2] matches ComponentModel::Normal(name) && name.len() > 0 && name[0] == 0x24),
{
}

/// A file is packed exactly if it is not reserved, can be read, and is no larger
/// than the limit; then under the name that it has in the archive. Otherwise the
/// plan says why not: a reserved file is passed over whatever else holds.
pub proof fn files_are_packed_unless_something_speaks_against_it(
    packer: &Packer,
    file: &WinPath,
    base: &WinPath,
    probe: FileProbe,
    plan: FilePlan,
    reserved: bool,
    name: String,
)
    requires
        call_ensures(Packer::plan_file, (packer, file, base, probe), plan),
        call_ensures(Packer::is_reserved_path, (file,), reserved),
        call_ensures(Packer::create_zip_entry_path, (file, base), name),
    ensures
        reserved <==> plan is SkipReserved,
        !reserved ==> match probe {
            FileProbe::Missing => plan is SkipMissing,
            FileProbe::Unreadable => plan is SkipUnreadable,
            FileProbe::Length(length) => if length > packer.packer_options.size_limit {
                plan matches FilePlan::SkipTooLarge { length: l } && l == length
            } else {
                plan matches FilePlan::Pack(n) && n@ == name@
            },
        },
{
}

/// An archive that is there is given up exactly if the options say so.
pub proof fn archives_are_overwritten_on_request(packer: &Packer, r: OutputMode)
    requires
        call_ensures(Packer::output_mode, (packer,), r),
    ensures
        r is CreateOrOverwrite <==> packer.packer_options.overwrite,
        r is CreateNew <==> !packer.packer_options.overwrite,
{
}

/// A path takes the form that the system gives it. Where the system gives none, the
/// path gets its root and is normalised component after component.
pub proof fn the_form_of_the_system_counts(
    path: &WinPath,
    canonical: WinPath,
    readings: Vec<WinPath>,
    r: WinPath,
    s: WinPath,
    with_root: WinPath,
    normal: WinPath,
)
    requires
        call_ensures(Packer::normalize_path, (path, &SystemForm::Canonical(canonical)), r),
        call_ensures(Packer::normalize_path, (path, &SystemForm::Readings(readings)), s),
        call_ensures(WinPath::into_rooted, (*path,), with_root),
        call_ensures(WinPath::normalize_lexically, (&with_root, &readings), normal),
    ensures
        r@ == canonical@,
        s@ == normal@,
{
}

proof fn lemma_normalized_files(
    files: Seq<(WinPath, ItemMetadata)>,
    forms: Seq<SystemForm>,
    keys: Seq<Seq<ComponentModel>>,
    values: Seq<ItemMetadata>,
)
    requires
        forms.len() == files.len(),
        keys.len() == files.len(),
        values.len() >= files.len(),
        forall|i: int|
            0 <= i < keys.len() ==> #[trigger] keys[i] == path_key(
                crate::packer::normalized(files[i].0@, forms[i]@),
            ) && values[i] == files[i].1,
    ensures
        normalized_files(files, forms) == put_in_turn(keys, values),
    decreases files.len(),
{
    if files.len() > 0 {
        let front = keys.drop_last();
        assert forall|i: int| 0 <= i < front.len() implies #[trigger] front[i] == path_key(
            crate::packer::normalized(files.drop_last()[i].0@, forms.drop_last()[i]@),
        ) && values[i] == files.drop_last()[i].1 by {
            assert(front[i] == keys[i]);
        }
        lemma_normalized_files(files.drop_last(), forms.drop_last(), front, values);
    }
}

/// Every changed file is listed under its normal form, and nothing else is. Of
/// files with the same normal form the last one counts.
pub proof fn files_are_listed_under_their_normal_forms(
    files: &Vec<(WinPath, ItemMetadata)>,
    forms: &Vec<SystemForm>,
    r: ChangeMap<WinPath>,
    paths: Seq<WinPath>,
    k: Seq<ComponentModel>,
)
    requires
        call_ensures(Packer::files_normalized, (files, forms), r),
        are_forms(files@, forms@),
        paths.len() == files@.len(),
        forall|i: int|
            0 <= i < paths.len() ==> call_ensures(
                Packer::normalize_path,
                (&files@[i].0, &forms@[i]),
                #[trigger] paths[i],
            ),
    ensures
        r@.dom().contains(k) <==> exists|i: int|
            0 <= i < paths.len() && path_key((#[trigger] paths[i])@) == k,
        forall|i: int|
            0 <= i < paths.len() && path_key((#[trigger] paths[i])@) == k && (forall|j: int|
                i < j < paths.len() ==> path_key((#[trigger] paths[j])@) != k) ==> r@[k]
                == files@[i].1,
{
    assert forall|i: int| 0 <= i < paths.len() implies (#[trigger] paths[i])@
        == crate::packer::normalized(files@[i].0@, forms@[i]@) by {
        assert(call_ensures(Packer::normalize_path, (&files@[i].0, &forms@[i]), paths[i]));
    }
    let keys = paths.map_values(|p: WinPath| path_key(p@));
    let values = files@.map_values(|f: (WinPath, ItemMetadata)| f.1);
    lemma_normalized_files(files@, forms@, keys, values);
    the_last_value_counts(keys, values, k);
    lemma_paths_of_keys(paths, keys, k);
}

/// The description of an archive says what it was given, and names no registry key
/// where none were followed.
pub proof fn an_archive_is_described_by_what_is_given(
    packer: &Packer,
    version: PackerVersion,
    timestamp: i128,
    files: ChangeMap<WinPath>,
    keys: ChangeMap<RegistryKey>,
    with: PackerMetadata<'_>,
    without: PackerMetadata<'_>,
    k: Seq<ComponentModel>,
)
    requires
        call_ensures(Packer::metadata, (packer, version, timestamp, files, Some(keys)), with),
        call_ensures(Packer::metadata, (packer, version, timestamp, files, None), without),
    ensures
        with.files == files,
        without.files == files,
        with.registry_keys == keys,
        !without.registry_keys@.dom().contains(k),
        with.timestamp == timestamp,
        with.version == version,
        *with.monitor == packer.monitor_options,
        *with.packer == packer.packer_options,
{
}

} // verus!
