//! How paths are compared, taken apart, joined and normalised.

use vstd::prelude::*;

use crate::changes::ChangeKey;
use crate::given::GivenPath;
use crate::path::{
    added_verbatim, are_readings, component_key, extension, is_below, is_last_dot, is_reading,
    joined, lexical_normal_form, path_key, path_views, ComponentModel, PathPrefix, PrefixModel,
    WinPath,
};

verus! {

/// Two components lead to the same place: they are equal, or prefixes of the same
/// volume, however they are spelled.
pub open spec fn lead_to_the_same(a: ComponentModel, b: ComponentModel) -> bool {
    match (a, b) {
        (ComponentModel::Prefix { kind: x, .. }, ComponentModel::Prefix { kind: y, .. }) => x == y,
        _ => a == b,
    }
}

pub(crate) proof fn lemma_component_keys(a: ComponentModel, b: ComponentModel)
    ensures
        component_key(a) == component_key(b) <==> lead_to_the_same(a, b),
{
}

/// `path` starts with the components of `base`.
pub open spec fn starts_with(path: Seq<ComponentModel>, base: Seq<ComponentModel>) -> bool {
    &&& base.len() <= path.len()
    &&& forall|i: int| 0 <= i < base.len() ==> lead_to_the_same(#[trigger] path[i], base[i])
}

pub(crate) proof fn lemma_starts_with(path: Seq<ComponentModel>, base: Seq<ComponentModel>)
    ensures
        is_below(path, base) <==> starts_with(path, base),
{
    if base.len() <= path.len() {
        if is_below(path, base) {
            assert forall|i: int| 0 <= i < base.len() implies lead_to_the_same(
                #[trigger] path[i],
                base[i],
            ) by {
                assert(path_key(path).take(base.len() as int)[i] == path_key(base)[i]);
                lemma_component_keys(path[i], base[i]);
            }
        }
        if starts_with(path, base) {
            assert forall|i: int| 0 <= i < base.len() implies path_key(path).take(base.len() as int)[i]
                == path_key(base)[i] by {
                assert(lead_to_the_same(path[i], base[i]));
                lemma_component_keys(path[i], base[i]);
            }
            assert(path_key(path).take(base.len() as int) =~= path_key(base));
        }
    }
}

/// Two paths count as one exactly if their components lead to the same places.
pub proof fn paths_are_compared_by_their_components(a: &WinPath, b: &WinPath, r: bool)
    requires
        call_ensures(<WinPath as ChangeKey>::same_key, (a, b), r),
    ensures
        r <==> a@.len() == b@.len() && starts_with(a@, b@),
{
    lemma_starts_with(a@, b@);
    if path_key(a@) == path_key(b@) {
        assert(path_key(a@).len() == path_key(b@).len());
        assert(path_key(a@).take(b@.len() as int) =~= path_key(a@));
    }
    if a@.len() == b@.len() && starts_with(a@, b@) {
        assert(path_key(a@).take(b@.len() as int) =~= path_key(a@));
    }
}

/// Taking a base off a path leaves what follows it, exactly if the path starts
/// with the base.
pub proof fn a_base_is_taken_off_what_starts_with_it(
    path: &WinPath,
    base: &WinPath,
    r: Option<WinPath>,
)
    requires
        call_ensures(WinPath::strip_prefix, (path, base), r),
    ensures
        r is Some <==> starts_with(path@, base@),
        r matches Some(rest) ==> rest@.len() == path@.len() - base@.len() && forall|i: int|
            0 <= i < rest@.len() ==> #[trigger] rest@[i] == path@[base@.len() + i],
{
    lemma_starts_with(path@, base@);
}

/// The name of a file and its folder are the two parts of its path.
pub proof fn a_path_is_its_folder_and_its_name(
    path: &WinPath,
    name: Option<Vec<u16>>,
    folder: Option<WinPath>,
)
    requires
        call_ensures(WinPath::file_name, (path,), name),
        call_ensures(WinPath::parent, (path,), folder),
    ensures
        name is Some <==> path@.len() > 0 && path@.last() is Normal,
        folder is Some <==> path@.len() > 0 && !(path@.last() is Prefix) && !(
        path@.last() is RootDir),
        name matches Some(n) ==> folder is Some && path@ == folder->0@.push(
            ComponentModel::Normal(n@),
        ),
        folder matches Some(f) ==> path@ == f@.push(path@.last()),
{
    if path@.len() > 0 {
        assert(path@.drop_last().push(path@.last()) =~= path@);
    }
}

/// A path is spelled component after component. A backslash stands for the root
/// and between two entries, and nowhere else.
pub proof fn paths_are_spelled_component_after_component(
    path: &WinPath,
    longer: &WinPath,
    c: ComponentModel,
    r: Vec<u16>,
    s: Vec<u16>,
)
    requires
        call_ensures(WinPath::to_units, (path,), r),
        call_ensures(WinPath::to_units, (longer,), s),
        longer@ == path@.push(c),
    ensures
        path@.len() == 0 ==> r@.len() == 0,
        s@ == r@ + (if path@.len() > 0 && !(path@.last() is Prefix) && !(path@.last() is RootDir)
            && !(c is Prefix) && !(c is RootDir) {
            seq![0x5cu16]
        } else {
            Seq::empty()
        }) + (match c {
            ComponentModel::Prefix { text, .. } => text,
            ComponentModel::RootDir => seq![0x5cu16],
            ComponentModel::CurDir => seq![0x2eu16],
            ComponentModel::ParentDir => seq![0x2eu16, 0x2eu16],
            ComponentModel::Normal(name) => name,
        }),
{
    assert(longer@.drop_last() =~= path@);
    assert(longer@.last() == c);
}

/// The path is one of those that are taken as they stand.
pub open spec fn is_literal(path: Seq<ComponentModel>) -> bool {
    path.len() > 0 && (path[0] matches ComponentModel::Prefix { kind, .. } && (kind is Verbatim
        || kind is VerbatimUnc || kind is VerbatimDisk))
}

/// All components are names.
pub open spec fn is_all_names(path: Seq<ComponentModel>) -> bool {
    forall|i: int| 0 <= i < path.len() ==> (#[trigger] path[i]) is Normal
}

proof fn lemma_names_are_added(base: Seq<ComponentModel>, other: Seq<ComponentModel>)
    requires
        is_all_names(other),
    ensures
        added_verbatim(base, other) == base + other,
    decreases other.len(),
{
    if other.len() > 0 {
        assert forall|i: int| 0 <= i < other.drop_last().len() implies (
        #[trigger] other.drop_last()[i]) is Normal by {
            assert(other[i] is Normal);
        }
        lemma_names_are_added(base, other.drop_last());
        assert(other[other.len() - 1] is Normal);
        assert(base + other =~= (base + other.drop_last()).push(other.last()));
    } else {
        assert(base + other =~= base);
    }
}

/// Names are added to the path that they are taken from. A path with a prefix
/// stands for itself, one with a root leads to the root of the volume, and one
/// with nothing in it leads nowhere else.
pub proof fn a_path_is_taken_from_another(base: &WinPath, other: &WinPath, r: WinPath)
    requires
        call_ensures(WinPath::join_path, (base, other), r),
    ensures
        other@.len() > 0 && other@[0] is Prefix ==> r@ == other@,
        other@.len() == 0 ==> r@ == base@,
        is_all_names(other@) && !(is_literal(base@) && base@.len() == 1) ==> {
            is_literal(base@) && base@.len() > 1 && !(base@[1] is RootDir) || r@ == base@ + other@
        },
        is_all_names(other@) && other@.len() > 0 && is_literal(base@) && base@.len() == 1 ==> r@
            == base@.push(ComponentModel::RootDir) + other@,
        other@.len() > 0 && other@[0] is RootDir && !is_literal(base@) ==> r@ == (if base@.len() > 0
            && base@[0] is Prefix {
            seq![base@[0]]
        } else {
            Seq::empty()
        }) + other@,
        other@.len() > 0 && other@[0] is ParentDir && !is_literal(base@) ==> r@ == base@ + other@,
        other@.len() > 0 && other@[0] is CurDir && !is_literal(base@) ==> r@ == base@ + (
        if base@.len() == 0 || (base@.len() == 1 && base@[0] is Prefix) {
            other@
        } else {
            other@.drop_first()
        }),
{
    if is_all_names(other@) {
        lemma_names_are_added(base@, other@);
        if other@.len() > 0 {
            assert(other@[0] is Normal);
            if is_literal(base@) && base@.len() == 1 {
                assert(added_verbatim(base@, other@)[1] == other@[0]);
                assert(r@ =~= base@.push(ComponentModel::RootDir) + other@);
            }
        } else {
            assert(base@ + other@ =~= base@);
        }
    }
    if other@.len() > 0 && other@[0] is RootDir && !is_literal(base@) {
        if base@.len() > 0 && base@[0] is Prefix {
            assert(base@.take(1) =~= seq![base@[0]]);
        } else {
            assert(Seq::<ComponentModel>::empty() + other@ =~= other@);
        }
    }
}

/// Normalising goes component after component: a dot at the end changes nothing,
/// two dots take the last entry off if there is one, and a name is added where it
/// is read as a name.
pub proof fn normalising_goes_component_after_component(
    path: &WinPath,
    readings: &Vec<WinPath>,
    r: WinPath,
    longer: &WinPath,
    more_readings: &Vec<WinPath>,
    s: WinPath,
    c: ComponentModel,
)
    requires
        call_ensures(WinPath::normalize_lexically, (path, readings), r),
        call_ensures(WinPath::normalize_lexically, (longer, more_readings), s),
        are_readings(longer@, path_views(more_readings@)),
        longer@ == path@.push(c),
        path_views(readings@) == path_views(more_readings@).drop_last(),
    ensures
        path@.len() == 0 ==> r@.len() == 0,
        c is CurDir ==> s@ == r@,
        c is ParentDir ==> s@ == (if r@.len() > 0 && !(r@.last() is Prefix) && !(
        r@.last() is RootDir) {
            r@.drop_last()
        } else {
            r@
        }),
        (c matches ComponentModel::Normal(name) && path_views(more_readings@).last() == seq![c])
            && (!is_literal(r@) || (r@.len() > 1 && r@[1] is RootDir)) ==> s@ == r@.push(c),
        c is Prefix ==> s@ == path_views(more_readings@).last(),
        c is RootDir && r@.len() == 0 ==> s@ == seq![c],
        c is RootDir && r@.len() == 1 && r@[0] is Prefix ==> s@ == r@.push(c),
{
    let all = path_views(more_readings@);
    let front = all.drop_last();
    assert(longer@.drop_last() =~= path@);
    assert(longer@.last() == c);
    lemma_front_readings(path@, all, front);
    assert(is_reading(longer@[longer@.len() - 1], all[longer@.len() - 1]));
    assert(all.last() == all[longer@.len() - 1]);
    if c is Normal && all.last() == seq![c] {
        assert(is_all_names(seq![c]));
        lemma_names_are_added(r@, seq![c]);
        assert(r@ + seq![c] =~= r@.push(c));
    }
    if c is RootDir {
        reveal_with_fuel(added_verbatim, 2);
        assert(all.last() == seq![c]);
        assert(seq![c].drop_last() =~= Seq::<ComponentModel>::empty());
        if r@.len() == 1 && r@[0] is Prefix {
            assert(r@.take(1) =~= r@);
            assert(r@.take(1) + seq![c] =~= r@.push(c));
            assert(added_verbatim(r@, seq![c]) =~= r@.push(c));
        }
    }
}

proof fn lemma_front_readings(
    path: Seq<ComponentModel>,
    all: Seq<Seq<ComponentModel>>,
    front: Seq<Seq<ComponentModel>>,
)
    requires
        front.len() >= path.len(),
        all.len() >= path.len(),
        forall|i: int| 0 <= i < path.len() ==> #[trigger] all[i] == front[i],
    ensures
        lexical_normal_form(path, all) == lexical_normal_form(path, front),
    decreases path.len(),
{
    if path.len() > 0 {
        assert forall|i: int| 0 <= i < path.drop_last().len() implies #[trigger] all[i]
            == front[i] by {}
        lemma_front_readings(path.drop_last(), all, front);
        assert(all[path.len() - 1] == front[path.len() - 1]);
    }
}

/// An extension is what follows the last full stop of a name that has one behind
/// its start.
pub proof fn an_extension_follows_the_last_full_stop(name: &Vec<u16>, r: Option<Vec<u16>>)
    requires
        call_ensures(extension, (name,), r),
    ensures
        r matches Some(ext) ==> {
            &&& 0 < name@.len() - ext@.len() - 1
            &&& name@[name@.len() - ext@.len() - 1] == 0x2e
            &&& name@.skip(name@.len() - ext@.len()) == ext@
            &&& forall|i: int| 0 <= i < ext@.len() ==> #[trigger] ext@[i] != 0x2e
        },
        name@ == seq![0x2eu16, 0x2eu16] ==> r is None,
        r is None ==> name@ == seq![0x2eu16, 0x2eu16] || forall|i: int|
            0 < i < name@.len() ==> #[trigger] name@[i] != 0x2e,
{
    if let Some(ext) = r {
        let at = choose|at: int| at > 0 && is_last_dot(name@, at);
        assert(ext@ =~= name@.skip(at + 1));
        assert forall|i: int| 0 <= i < ext@.len() implies #[trigger] ext@[i] != 0x2e by {
            assert(ext@[i] == name@[at + 1 + i]);
        }
    } else if name@ != seq![0x2eu16, 0x2eu16] {
        if exists|i: int| 0 < i < name@.len() && name@[i] == 0x2e {
            let i = choose|i: int| 0 < i < name@.len() && name@[i] == 0x2e;
            let at = lemma_last_dot(name@, i);
            assert(is_last_dot(name@, at));
        }
    }
}

proof fn lemma_last_dot(name: Seq<u16>, i: int) -> (at: int)
    requires
        0 < i < name.len(),
        name[i] == 0x2e,
    ensures
        i <= at,
        is_last_dot(name, at),
    decreases name.len() - i,
{
    if exists|k: int| i < k < name.len() && name[k] == 0x2e {
        let k = choose|k: int| i < k < name.len() && name[k] == 0x2e;
        lemma_last_dot(name, k)
    } else {
        i
    }
}

/// What has no prefix and no root is added to the text of the path that it is
/// taken from, behind a backslash unless that text is empty, ends in a separator or
/// is the letter of a volume. What has a prefix keeps its text.
pub proof fn text_is_added_behind_a_separator(base: &GivenPath, other: &GivenPath, r: GivenPath)
    requires
        call_ensures(GivenPath::join, (base, other), r),
        !is_literal(base.path@),
    ensures
        other.path@.len() > 0 && other.path@[0] is Prefix ==> r.text@ == other.text@,
        other.path@.len() > 0 && (other.path@[0] is Normal || other.path@[0] is CurDir
            || other.path@[0] is ParentDir) ==> {
            let ends = base.text@.len() == 0 || base.text@.last() == 0x5c || base.text@.last()
                == 0x2f || (base.path@.len() == 1 && (
            base.path@[0] matches ComponentModel::Prefix { kind, .. } && kind is Disk));
            r.text@ == base.text@ + (if ends {
                Seq::empty()
            } else {
                seq![0x5cu16]
            }) + other.text@
        },
        other.path@.len() > 0 && other.path@[0] is RootDir ==> r.text@ == (if base.path@.len() > 0
            && base.path@[0] is Prefix {
            base.path@[0]->text
        } else {
            Seq::empty()
        }) + other.text@,
{
}

/// The components of a joined path are those of its two parts joined.
pub proof fn text_and_components_are_joined_alike(
    base: &GivenPath,
    other: &GivenPath,
    r: GivenPath,
    path: WinPath,
)
    requires
        call_ensures(GivenPath::join, (base, other), r),
        call_ensures(WinPath::join_path, (&base.path, &other.path), path),
    ensures
        r.path@ == path@,
{
}

/// A path that is a volume and nothing else gets its root, and any other path stays
/// as it is.
pub proof fn a_bare_volume_gets_its_root(path: WinPath, r: WinPath)
    requires
        call_ensures(WinPath::into_rooted, (path,), r),
    ensures
        path@.len() == 1 && path@[0] is Prefix ==> r@ == seq![path@[0], ComponentModel::RootDir],
        path@.len() != 1 || !(path@[0] is Prefix) ==> r@ == path@,
{
    if path@.len() == 1 && path@[0] is Prefix {
        assert(r@ =~= seq![path@[0], ComponentModel::RootDir]);
    }
}

/// A path is taken as it stands exactly if its prefix says so.
pub proof fn literal_paths_start_with_their_prefix(path: &WinPath, r: bool)
    requires
        call_ensures(WinPath::is_verbatim, (path,), r),
    ensures
        r <==> is_literal(path@),
{
}

/// The volume with a letter is spelled with that letter and a colon.
pub proof fn a_volume_is_spelled_with_its_letter(letter: u8, r: PathPrefix)
    requires
        0x41 <= letter <= 0x5a,
        call_ensures(PathPrefix::disk, (letter,), r),
    ensures
        r.anchor() == PrefixModel::Disk(letter),
        r.spelling() == seq![letter as u16, 0x3au16],
{
}

/// A name alone is a path of one entry and its own spelling.
pub proof fn a_name_is_its_own_spelling(name: Vec<u16>, r: GivenPath)
    requires
        call_ensures(GivenPath::entry, (name,), r),
    ensures
        r.text@ == name@,
        r.path@ == seq![ComponentModel::Normal(name@)],
{
}

/// A path that is spelled anew keeps its components.
pub proof fn spelling_a_path_keeps_it(path: WinPath, r: GivenPath, text: Vec<u16>)
    requires
        call_ensures(GivenPath::of, (path,), r),
        call_ensures(WinPath::to_units, (&path,), text),
    ensures
        r.path@ == path@,
        r.text@ == text@,
{
}

/// What is taken from a path that is taken as it stands is spelled anew, unless it
/// has a prefix of its own.
pub proof fn literal_paths_are_spelled_anew(
    base: &GivenPath,
    other: &GivenPath,
    r: GivenPath,
    text: Vec<u16>,
)
    requires
        call_ensures(GivenPath::join, (base, other), r),
        call_ensures(WinPath::to_units, (&r.path,), text),
        is_literal(base.path@),
        other.text@.len() > 0,
        other.path@.len() == 0 || !(other.path@[0] is Prefix),
    ensures
        r.text@ == text@,
{
}

} // verus!
