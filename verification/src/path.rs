//! Windows paths, taken apart into their components.
//!
//! Names are kept as 16-bit units, so that every name the system can hold fits
//! in, also one that is no valid text.

use vstd::prelude::*;

use crate::changes::{same_units, ChangeKey};

verus! {

/// The backslash.
pub const SEPARATOR: u16 = 0x5c;

/// The full stop.
pub const DOT: u16 = 0x2e;

/// The slash.
pub const SLASH: u16 = 0x2f;

/// The question mark.
pub const QUESTION_MARK: u16 = 0x3f;

/// The colon.
pub const COLON: u16 = 0x3a;

/// What a path is anchored at.
#[derive(Debug)]
pub enum PrefixKind {
    /// `\\?\name`
    Verbatim(Vec<u16>),
    /// `\\?\UNC\server\share`
    VerbatimUnc(Vec<u16>, Vec<u16>),
    /// `\\?\C:`, with the letter in upper case
    VerbatimDisk(u8),
    /// `\\.\name`
    DeviceNs(Vec<u16>),
    /// `\\server\share`
    Unc(Vec<u16>, Vec<u16>),
    /// `C:`, with the letter in upper case
    Disk(u8),
}

/// The anchor of a path and how the path spells it.
#[derive(Debug)]
pub struct PathPrefix {
    kind: PrefixKind,
    text: Vec<u16>,
}

/// One part of a path.
#[derive(Debug)]
pub enum PathComponent {
    Prefix(PathPrefix),
    RootDir,
    CurDir,
    ParentDir,
    Normal(Vec<u16>),
}

/// A path by its components. Where its spelling counts, it is that with single
/// backslashes.
#[derive(Debug)]
pub struct WinPath {
    pub components: Vec<PathComponent>,
}

pub enum PrefixModel {
    Verbatim(Seq<u16>),
    VerbatimUnc(Seq<u16>, Seq<u16>),
    VerbatimDisk(u8),
    DeviceNs(Seq<u16>),
    Unc(Seq<u16>, Seq<u16>),
    Disk(u8),
}

pub enum ComponentModel {
    Prefix { kind: PrefixModel, text: Seq<u16> },
    RootDir,
    CurDir,
    ParentDir,
    Normal(Seq<u16>),
}

impl View for PrefixKind {
    type V = PrefixModel;

    open spec fn view(&self) -> PrefixModel {
        match *self {
            PrefixKind::Verbatim(name) => PrefixModel::Verbatim(name@),
            PrefixKind::VerbatimUnc(server, share) => PrefixModel::VerbatimUnc(server@, share@),
            PrefixKind::VerbatimDisk(letter) => PrefixModel::VerbatimDisk(letter),
            PrefixKind::DeviceNs(name) => PrefixModel::DeviceNs(name@),
            PrefixKind::Unc(server, share) => PrefixModel::Unc(server@, share@),
            PrefixKind::Disk(letter) => PrefixModel::Disk(letter),
        }
    }
}

/// The backslash and the slash.
pub open spec fn is_separator(u: u16) -> bool {
    u == SEPARATOR || u == SLASH
}

/// `u` is the letter `letter`, which is in upper case, in either case.
pub open spec fn is_letter_of(u: u16, letter: u8) -> bool {
    0x41 <= letter <= 0x5a && (u == letter || u == letter + 0x20)
}

/// `part` stands in `text` from `at` on.
pub open spec fn holds_at(text: Seq<u16>, at: int, part: Seq<u16>) -> bool {
    0 <= at && at + part.len() <= text.len() && text.subrange(at, at + part.len()) == part
}

/// `\\?\`
pub open spec fn verbatim_start() -> Seq<u16> {
    seq![SEPARATOR, SEPARATOR, QUESTION_MARK, SEPARATOR]
}

/// `UNC\`
pub open spec fn unc_start() -> Seq<u16> {
    seq![0x55, 0x4e, 0x43, SEPARATOR]
}

/// `text` is a way to spell the prefix `kind`.
pub open spec fn spells(text: Seq<u16>, kind: PrefixModel) -> bool {
    match kind {
        PrefixModel::Verbatim(name) => {
            &&& text.len() == 4 + name.len()
            &&& holds_at(text, 0, verbatim_start())
            &&& holds_at(text, 4, name)
        },
        PrefixModel::VerbatimUnc(server, share) => {
            &&& text.len() == 8 + server.len() + (if share.len() > 0 {
                1 + share.len()
            } else {
                0
            })
            &&& holds_at(text, 0, verbatim_start())
            &&& holds_at(text, 4, unc_start())
            &&& holds_at(text, 8, server)
            &&& share.len() > 0 ==> text[8 + server.len() as int] == SEPARATOR && holds_at(
                text,
                9 + server.len() as int,
                share,
            )
        },
        PrefixModel::VerbatimDisk(letter) => {
            &&& text.len() == 6
            &&& holds_at(text, 0, verbatim_start())
            &&& is_letter_of(text[4], letter)
            &&& text[5] == COLON
        },
        PrefixModel::DeviceNs(name) => {
            &&& text.len() == 4 + name.len()
            &&& is_separator(text[0])
            &&& is_separator(text[1])
            &&& text[2] == DOT
            &&& is_separator(text[3])
            &&& holds_at(text, 4, name)
        },
        PrefixModel::Unc(server, share) => {
            &&& text.len() == 3 + server.len() + share.len()
            &&& is_separator(text[0])
            &&& is_separator(text[1])
            &&& holds_at(text, 2, server)
            &&& is_separator(text[2 + server.len() as int])
            &&& holds_at(text, 3 + server.len() as int, share)
        },
        PrefixModel::Disk(letter) => {
            &&& text.len() == 2
            &&& is_letter_of(text[0], letter)
            &&& text[1] == COLON
        },
    }
}

fn check_holds_at(text: &Vec<u16>, at: usize, part: &Vec<u16>) -> (r: bool)
    ensures
        r == holds_at(text@, at as int, part@),
{
    if at > text.len() || part.len() > text.len() - at {
        return false;
    }
    for i in 0..part.len()
        invariant
            at + part@.len() <= text@.len() <= usize::MAX,
            forall|k: int| 0 <= k < i ==> text@[at + k] == part@[k],
    {
        if text[at + i] != part[i] {
            assert(text@.subrange(at as int, at + part@.len())[i as int] != part@[i as int]);
            return false;
        }
    }
    assert(text@.subrange(at as int, at + part@.len()) =~= part@);
    true
}

fn check_is_separator(u: u16) -> (r: bool)
    ensures
        r == is_separator(u),
{
    u == SEPARATOR || u == SLASH
}

fn check_is_letter_of(u: u16, letter: u8) -> (r: bool)
    ensures
        r == is_letter_of(u, letter),
{
    0x41 <= letter && letter <= 0x5a && (u == letter as u16 || u == letter as u16 + 0x20)
}

fn check_spells(text: &Vec<u16>, kind: &PrefixKind) -> (r: bool)
    ensures
        r == spells(text@, kind@),
{
    let start: Vec<u16> = vec![SEPARATOR, SEPARATOR, QUESTION_MARK, SEPARATOR];
    assert(start@ =~= verbatim_start());
    let len: usize = text.len();
    match kind {
        PrefixKind::Verbatim(name) => len >= 4 && len - 4 == name.len() && check_holds_at(
            text,
            0,
            &start,
        ) && check_holds_at(text, 4, name),
        PrefixKind::VerbatimUnc(server, share) => {
            let unc: Vec<u16> = vec![0x55, 0x4e, 0x43, SEPARATOR];
            assert(unc@ =~= unc_start());
            if len < 8 || server.len() > len - 8 || !check_holds_at(text, 0, &start)
                || !check_holds_at(text, 4, &unc) || !check_holds_at(text, 8, server) {
                return false;
            }
            let left: usize = len - 8 - server.len();
            if share.len() == 0 {
                left == 0
            } else {
                left >= 1 && left - 1 == share.len() && text[8 + server.len()] == SEPARATOR
                    && check_holds_at(text, 9 + server.len(), share)
            }
        },
        PrefixKind::VerbatimDisk(letter) => len == 6 && check_holds_at(text, 0, &start)
            && check_is_letter_of(text[4], *letter) && text[5] == COLON,
        PrefixKind::DeviceNs(name) => len >= 4 && len - 4 == name.len() && check_is_separator(
            text[0],
        ) && check_is_separator(text[1]) && text[2] == DOT && check_is_separator(text[3])
            && check_holds_at(text, 4, name),
        PrefixKind::Unc(server, share) => len >= 3 && server.len() <= len - 3 && len - 3
            - server.len() == share.len() && check_is_separator(text[0]) && check_is_separator(
            text[1],
        ) && check_holds_at(text, 2, server) && check_is_separator(text[2 + server.len()])
            && check_holds_at(text, 3 + server.len(), share),
        PrefixKind::Disk(letter) => len == 2 && check_is_letter_of(text[0], *letter) && text[1]
            == COLON,
    }
}

impl PathPrefix {
    /// What the path is anchored at.
    pub closed spec fn anchor(self) -> PrefixModel {
        self.kind@
    }

    /// How the path spells it.
    pub closed spec fn spelling(self) -> Seq<u16> {
        self.text@
    }

    /// The spelling fits the anchor.
    #[verifier::type_invariant]
    spec fn well_formed(self) -> bool {
        spells(self.text@, self.kind@)
    }

    /// The anchor `kind`, spelled as `text`, if it can be.
    pub fn new(kind: PrefixKind, text: Vec<u16>) -> (r: Option<PathPrefix>)
        ensures
            match r {
                Some(prefix) => spells(text@, kind@) && prefix.anchor() == kind@
                    && prefix.spelling() == text@,
                None => !spells(text@, kind@),
            },
    {
        if check_spells(&text, &kind) {
            Some(PathPrefix { kind, text })
        } else {
            None
        }
    }

    /// The anchor of the volume with the letter `letter`.
    pub fn disk(letter: u8) -> (r: PathPrefix)
        requires
            0x41 <= letter <= 0x5a,
        ensures
            r.anchor() == PrefixModel::Disk(letter),
            r.spelling() == seq![letter as u16, COLON],
    {
        let text: Vec<u16> = vec![letter as u16, COLON];
        assert(text@ =~= seq![letter as u16, COLON]);
        PathPrefix { kind: PrefixKind::Disk(letter), text }
    }

    /// What the path is anchored at.
    pub fn kind(&self) -> (r: &PrefixKind)
        ensures
            r@ == self.anchor(),
            spells(self.spelling(), self.anchor()),
    {
        proof {
            use_type_invariant(self);
        }
        &self.kind
    }

    /// How the path spells it.
    pub fn text(&self) -> (r: &Vec<u16>)
        ensures
            r@ == self.spelling(),
            spells(self.spelling(), self.anchor()),
    {
        proof {
            use_type_invariant(self);
        }
        &self.text
    }
}

impl View for PathComponent {
    type V = ComponentModel;

    open spec fn view(&self) -> ComponentModel {
        match *self {
            PathComponent::Prefix(prefix) => ComponentModel::Prefix {
                kind: prefix.anchor(),
                text: prefix.spelling(),
            },
            PathComponent::RootDir => ComponentModel::RootDir,
            PathComponent::CurDir => ComponentModel::CurDir,
            PathComponent::ParentDir => ComponentModel::ParentDir,
            PathComponent::Normal(name) => ComponentModel::Normal(name@),
        }
    }
}

/// The components behind their views.
pub open spec fn component_views(components: Seq<PathComponent>) -> Seq<ComponentModel> {
    components.map_values(|c: PathComponent| c@)
}

impl View for WinPath {
    type V = Seq<ComponentModel>;

    open spec fn view(&self) -> Seq<ComponentModel> {
        component_views(self.components@)
    }
}

/// What counts when two components are compared: not how a prefix is spelled.
pub open spec fn component_key(c: ComponentModel) -> ComponentModel {
    match c {
        ComponentModel::Prefix { kind, .. } => ComponentModel::Prefix { kind, text: Seq::empty() },
        _ => c,
    }
}

/// What counts when two paths are compared.
pub open spec fn path_key(path: Seq<ComponentModel>) -> Seq<ComponentModel> {
    path.map_values(|c: ComponentModel| component_key(c))
}

impl ChangeKey for WinPath {
    type Key = Seq<ComponentModel>;

    open spec fn key(&self) -> Seq<ComponentModel> {
        path_key(self@)
    }

    fn same_key(&self, other: &Self) -> (r: bool) {
        if self.components.len() != other.components.len() {
            assert(path_key(self@).len() != path_key(other@).len());
            return false;
        }
        let same: bool = begins_with(self, other);
        assert(path_key(self@).take(other@.len() as int) =~= path_key(self@));
        same
    }
}

fn same_prefix(a: &PrefixKind, b: &PrefixKind) -> (r: bool)
    ensures
        r == (a@ == b@),
{
    match (a, b) {
        (PrefixKind::Verbatim(x), PrefixKind::Verbatim(y)) => same_units(x, y),
        (PrefixKind::VerbatimUnc(x, s), PrefixKind::VerbatimUnc(y, t)) => same_units(x, y)
            && same_units(s, t),
        (PrefixKind::VerbatimDisk(x), PrefixKind::VerbatimDisk(y)) => *x == *y,
        (PrefixKind::DeviceNs(x), PrefixKind::DeviceNs(y)) => same_units(x, y),
        (PrefixKind::Unc(x, s), PrefixKind::Unc(y, t)) => same_units(x, y) && same_units(s, t),
        (PrefixKind::Disk(x), PrefixKind::Disk(y)) => *x == *y,
        _ => false,
    }
}

fn same_component(a: &PathComponent, b: &PathComponent) -> (r: bool)
    ensures
        r == (component_key(a@) == component_key(b@)),
{
    match (a, b) {
        (PathComponent::Prefix(x), PathComponent::Prefix(y)) => same_prefix(&x.kind, &y.kind),
        (PathComponent::RootDir, PathComponent::RootDir) => true,
        (PathComponent::CurDir, PathComponent::CurDir) => true,
        (PathComponent::ParentDir, PathComponent::ParentDir) => true,
        (PathComponent::Normal(x), PathComponent::Normal(y)) => same_units(x, y),
        _ => false,
    }
}

/// Tells whether `path` lies at or below `base`.
fn begins_with(path: &WinPath, base: &WinPath) -> (r: bool)
    ensures
        r == is_below(path@, base@),
{
    if base.components.len() > path.components.len() {
        return false;
    }
    for i in 0..base.components.len()
        invariant
            base.components@.len() <= path.components@.len(),
            forall|k: int|
                0 <= k < i ==> component_key((#[trigger] path.components@[k])@) == component_key(
                    base.components@[k]@,
                ),
    {
        if !same_component(&path.components[i], &base.components[i]) {
            proof {
                let k = i as int;
                assert(path_key(path@).take(base@.len() as int)[k] != path_key(base@)[k]);
            }
            return false;
        }
    }
    assert(path_key(path@).take(base@.len() as int) =~= path_key(base@));
    true
}

/// `path` lies at or below `base`.
pub open spec fn is_below(path: Seq<ComponentModel>, base: Seq<ComponentModel>) -> bool {
    &&& base.len() <= path.len()
    &&& path_key(path).take(base.len() as int) == path_key(base)
}

/// How one component is spelled.
pub open spec fn component_text(c: ComponentModel) -> Seq<u16> {
    match c {
        ComponentModel::Prefix { text, .. } => text,
        ComponentModel::RootDir => seq![SEPARATOR],
        ComponentModel::CurDir => seq![DOT],
        ComponentModel::ParentDir => seq![DOT, DOT],
        ComponentModel::Normal(name) => name,
    }
}

/// The component stands for an entry of a directory.
pub open spec fn is_entry(c: ComponentModel) -> bool {
    c is Normal || c is CurDir || c is ParentDir
}

/// How a path is spelled: a separator stands between two entries.
pub open spec fn path_text(path: Seq<ComponentModel>) -> Seq<u16>
    decreases path.len(),
{
    if path.len() == 0 {
        Seq::empty()
    } else {
        let front = path.drop_last();
        let separator: Seq<u16> = if front.len() > 0 && is_entry(front.last()) && is_entry(
            path.last(),
        ) {
            seq![SEPARATOR]
        } else {
            Seq::empty()
        };
        path_text(front) + separator + component_text(path.last())
    }
}

/// The path is taken as it stands, without `.` and `..`.
pub open spec fn has_verbatim_prefix(path: Seq<ComponentModel>) -> bool {
    &&& path.len() > 0
    &&& path[0] matches ComponentModel::Prefix { kind, .. } && (kind is Verbatim
        || kind is VerbatimUnc || kind is VerbatimDisk)
}

/// The components of `base`, a path without `.` and `..`, with those of `other`
/// added: `.` is left out, `..` is resolved by name, and a root leads back to
/// the root.
pub open spec fn added_verbatim(
    base: Seq<ComponentModel>,
    other: Seq<ComponentModel>,
) -> Seq<ComponentModel>
    decreases other.len(),
{
    if other.len() == 0 {
        base
    } else {
        let front = added_verbatim(base, other.drop_last());
        match other.last() {
            ComponentModel::CurDir => front,
            ComponentModel::ParentDir => if front.len() > 0 && front.last() is Normal {
                front.drop_last()
            } else {
                front
            },
            ComponentModel::RootDir => (if front.len() > 0 {
                front.take(1)
            } else {
                front
            }).push(ComponentModel::RootDir),
            c => front.push(c),
        }
    }
}

/// The path that `other` stands for when it is taken from `base`, a path that is
/// taken as it stands. What follows the prefix of such a path follows its root.
pub open spec fn joined_verbatim(
    base: Seq<ComponentModel>,
    other: Seq<ComponentModel>,
) -> Seq<ComponentModel> {
    let path = added_verbatim(base, other);
    if path.len() > 1 && !(path[1] is RootDir) {
        path.insert(1, ComponentModel::RootDir)
    } else {
        path
    }
}

/// The path that `other` stands for when it is taken from `base`. One with a
/// prefix stands for itself, and one with a root leads to the root of the prefix
/// of `base`. A `.` at its start is left out where something stands before it
/// that is more than a prefix.
pub open spec fn joined(base: Seq<ComponentModel>, other: Seq<ComponentModel>) -> Seq<
    ComponentModel,
> {
    if other.len() == 0 {
        base
    } else if other[0] is Prefix {
        other
    } else if has_verbatim_prefix(base) {
        joined_verbatim(base, other)
    } else if other[0] is RootDir {
        if base.len() > 0 && base[0] is Prefix {
            base.take(1) + other
        } else {
            other
        }
    } else if other[0] is CurDir && base.len() > 0 && !(base.len() == 1 && base[0] is Prefix) {
        base + other.drop_first()
    } else {
        base + other
    }
}

/// A path that is a prefix and nothing else becomes the root of that prefix.
pub open spec fn rooted(path: Seq<ComponentModel>) -> Seq<ComponentModel> {
    if path.len() == 1 && path[0] is Prefix {
        path.push(ComponentModel::RootDir)
    } else {
        path
    }
}

/// The name of the entry that the path leads to.
pub open spec fn file_name_of(path: Seq<ComponentModel>) -> Option<Seq<u16>> {
    if path.len() > 0 {
        match path.last() {
            ComponentModel::Normal(name) => Some(name),
            _ => None,
        }
    } else {
        None
    }
}

/// The directory that holds what the path leads to.
pub open spec fn parent_of(path: Seq<ComponentModel>) -> Option<Seq<ComponentModel>> {
    if path.len() > 0 && is_entry(path.last()) {
        Some(path.drop_last())
    } else {
        None
    }
}

/// The directory that holds what the path leads to, or the path itself where
/// there is none.
pub open spec fn popped(path: Seq<ComponentModel>) -> Seq<ComponentModel> {
    match parent_of(path) {
        Some(parent) => parent,
        None => path,
    }
}

/// The name stands for one entry wherever it is read: it holds no separator, is
/// neither `.` nor `..`, and does not start with the letter of a volume.
pub open spec fn is_plain_name(name: Seq<u16>) -> bool {
    &&& name.len() > 0
    &&& forall|i: int| 0 <= i < name.len() ==> !is_separator(#[trigger] name[i])
    &&& name != seq![DOT]
    &&& name != seq![DOT, DOT]
    &&& !(name.len() >= 2 && name[1] == COLON && (0x41 <= name[0] <= 0x5a || 0x61 <= name[0]
        <= 0x7a))
}

/// `reading` can be the path that the text of `c` alone stands for. Only a name
/// that is not plain leaves more than its spelling to the system: `a:b`, a stream
/// of the file `a` inside a path, leads to a volume when it is read alone.
pub open spec fn is_reading(c: ComponentModel, reading: Seq<ComponentModel>) -> bool {
    match c {
        ComponentModel::Prefix { kind, .. } => reading == seq![c] || ((kind is Unc
            || kind is DeviceNs) && reading == seq![c, ComponentModel::RootDir]),
        ComponentModel::Normal(name) => is_plain_name(name) ==> reading == seq![c],
        _ => reading == seq![c],
    }
}

/// `readings` holds for each component of `path` the path that it stands for
/// when it is read alone.
pub open spec fn are_readings(
    path: Seq<ComponentModel>,
    readings: Seq<Seq<ComponentModel>>,
) -> bool {
    &&& readings.len() == path.len()
    &&& forall|i: int| 0 <= i < path.len() ==> #[trigger] is_reading(path[i], readings[i])
}

/// The path with `.` left out and `..` resolved by name alone. A `..` that has
/// no entry before it is left out. Every other component is taken for the path
/// that it stands for when it is read alone, one after the other.
pub open spec fn lexical_normal_form(
    path: Seq<ComponentModel>,
    readings: Seq<Seq<ComponentModel>>,
) -> Seq<ComponentModel>
    decreases path.len(),
{
    if path.len() == 0 {
        Seq::empty()
    } else {
        let front = lexical_normal_form(path.drop_last(), readings);
        match path.last() {
            ComponentModel::CurDir => front,
            ComponentModel::ParentDir => popped(front),
            _ => joined(front, readings[path.len() - 1]),
        }
    }
}

/// `at` is the place of the last full stop in `name`.
pub open spec fn is_last_dot(name: Seq<u16>, at: int) -> bool {
    &&& 0 <= at < name.len()
    &&& name[at] == DOT
    &&& forall|k: int| at < k < name.len() ==> name[k] != DOT
}

/// What follows the last full stop in `name`, unless the name starts with it,
/// holds none or is `..`.
pub open spec fn extension_of(name: Seq<u16>) -> Option<Seq<u16>> {
    if name != seq![DOT, DOT] && exists|at: int| at > 0 && is_last_dot(name, at) {
        let at = choose|at: int| at > 0 && is_last_dot(name, at);
        Some(name.skip(at + 1))
    } else {
        None
    }
}

/// A copy of some text.
pub fn copy_units(units: &Vec<u16>) -> (r: Vec<u16>)
    ensures
        r@ == units@,
{
    let r: Vec<u16> = units.clone();
    assert(r@ =~= units@);
    r
}

/// Appends `more` to `units`.
pub fn append_units(units: &mut Vec<u16>, more: &Vec<u16>)
    ensures
        final(units)@ == old(units)@ + more@,
{
    let ghost before = units@;
    for i in 0..more.len()
        invariant
            units@ == before + more@.take(i as int),
    {
        units.push(more[i]);
        assert(more@.take(i + 1) =~= more@.take(i as int).push(more@[i as int]));
    }
    assert(more@.take(more@.len() as int) =~= more@);
}

fn copy_prefix(kind: &PrefixKind) -> (r: PrefixKind)
    ensures
        r@ == kind@,
{
    match kind {
        PrefixKind::Verbatim(name) => PrefixKind::Verbatim(copy_units(name)),
        PrefixKind::VerbatimUnc(server, share) => PrefixKind::VerbatimUnc(
            copy_units(server),
            copy_units(share),
        ),
        PrefixKind::VerbatimDisk(letter) => PrefixKind::VerbatimDisk(*letter),
        PrefixKind::DeviceNs(name) => PrefixKind::DeviceNs(copy_units(name)),
        PrefixKind::Unc(server, share) => PrefixKind::Unc(copy_units(server), copy_units(share)),
        PrefixKind::Disk(letter) => PrefixKind::Disk(*letter),
    }
}

fn copy_component(c: &PathComponent) -> (r: PathComponent)
    ensures
        r@ == c@,
{
    match c {
        PathComponent::Prefix(prefix) => {
            proof {
                use_type_invariant(prefix);
            }
            PathComponent::Prefix(
                PathPrefix { kind: copy_prefix(&prefix.kind), text: copy_units(&prefix.text) },
            )
        },
        PathComponent::RootDir => PathComponent::RootDir,
        PathComponent::CurDir => PathComponent::CurDir,
        PathComponent::ParentDir => PathComponent::ParentDir,
        PathComponent::Normal(name) => PathComponent::Normal(copy_units(name)),
    }
}

fn is_entry_component(c: &PathComponent) -> (r: bool)
    ensures
        r == is_entry(c@),
{
    match c {
        PathComponent::Normal(_) | PathComponent::CurDir | PathComponent::ParentDir => true,
        _ => false,
    }
}

impl Clone for WinPath {
    fn clone(&self) -> (r: Self)
        ensures
            r@ == self@,
    {
        self.range(0, self.components.len())
    }
}

impl WinPath {
    /// The components from `from` up to `to`.
    fn range(&self, from: usize, to: usize) -> (r: WinPath)
        requires
            from <= to <= self.components@.len(),
        ensures
            r@ == self@.subrange(from as int, to as int),
    {
        let mut components: Vec<PathComponent> = Vec::new();
        for i in from..to
            invariant
                from <= to <= self.components@.len(),
                component_views(components@) == self@.subrange(from as int, i as int),
        {
            let ghost before = components@;
            components.push(copy_component(&self.components[i]));
            proof {
                assert(component_views(components@) =~= component_views(before).push(
                    self@[i as int],
                ));
                assert(self@.subrange(from as int, i + 1) =~= self@.subrange(
                    from as int,
                    i as int,
                ).push(self@[i as int]));
            }
        }
        WinPath { components }
    }

    /// How the path is spelled.
    pub fn to_units(&self) -> (r: Vec<u16>)
        ensures
            r@ == path_text(self@),
    {
        let mut units: Vec<u16> = Vec::new();
        for i in 0..self.components.len()
            invariant
                units@ == path_text(self@.take(i as int)),
        {
            proof {
                assert(self@.take(i + 1).drop_last() =~= self@.take(i as int));
                assert(self@.take(i + 1).last() == self.components@[i as int]@);
                if i > 0 {
                    assert(self@.take(i as int).last() == self.components@[i - 1]@);
                }
            }
            let c: &PathComponent = &self.components[i];
            if i > 0 && is_entry_component(&self.components[i - 1]) && is_entry_component(c) {
                units.push(SEPARATOR);
            }
            let ghost before = units@;
            match c {
                PathComponent::Prefix(prefix) => append_units(&mut units, &prefix.text),
                PathComponent::RootDir => units.push(SEPARATOR),
                PathComponent::CurDir => units.push(DOT),
                PathComponent::ParentDir => {
                    units.push(DOT);
                    units.push(DOT);
                },
                PathComponent::Normal(name) => append_units(&mut units, name),
            }
            assert(units@ =~= before + component_text(c@));
            assert(units@ =~= path_text(self@.take(i + 1)));
        }
        assert(self@.take(self@.len() as int) =~= self@);
        units
    }

    /// The name of the entry that the path leads to.
    pub fn file_name(&self) -> (r: Option<Vec<u16>>)
        ensures
            match r {
                Some(name) => file_name_of(self@) == Some(name@),
                None => file_name_of(self@) is None,
            },
    {
        let len: usize = self.components.len();
        if len == 0 {
            return None;
        }
        match &self.components[len - 1] {
            PathComponent::Normal(name) => Some(copy_units(name)),
            _ => None,
        }
    }

    /// The directory that holds what the path leads to.
    pub fn parent(&self) -> (r: Option<WinPath>)
        ensures
            match r {
                Some(parent) => parent_of(self@) == Some(parent@),
                None => parent_of(self@) is None,
            },
    {
        let len: usize = self.components.len();
        if len == 0 || !is_entry_component(&self.components[len - 1]) {
            return None;
        }
        Some(self.range(0, len - 1))
    }

    /// The path that `other` stands for when it is taken from this path.
    pub fn join_path(&self, other: &WinPath) -> (r: WinPath)
        ensures
            r@ == joined(self@, other@),
    {
        let len: usize = self.components.len();
        let other_len: usize = other.components.len();
        if other_len == 0 {
            assert(self@ + other@ =~= self@);
            return self.clone();
        }
        assert(other@[0] == other.components@[0]@);
        if let PathComponent::Prefix(_) = &other.components[0] {
            return other.clone();
        }
        if self.is_verbatim() {
            return self.join_verbatim(other);
        }
        if len > 0 {
            assert(self@[0] == self.components@[0]@);
        }
        match &other.components[0] {
            PathComponent::RootDir => {
                let keeps_prefix: bool = if len > 0 {
                    match &self.components[0] {
                        PathComponent::Prefix(_) => true,
                        _ => false,
                    }
                } else {
                    false
                };
                let kept: usize = if keeps_prefix {
                    1
                } else {
                    0
                };
                assert(self@.subrange(0, kept as int) =~= self@.take(kept as int));
                let r: WinPath = self.range(0, kept).followed_by(other, 0);
                assert(other@.skip(0) =~= other@);
                assert(self@.take(0) + other@ =~= other@);
                r
            },
            PathComponent::CurDir => {
                let bare: bool = len == 1 && match &self.components[0] {
                    PathComponent::Prefix(_) => true,
                    _ => false,
                };
                let from: usize = if len > 0 && !bare {
                    1
                } else {
                    0
                };
                assert(other@.skip(0) =~= other@);
                assert(other@.skip(1) =~= other@.drop_first());
                self.clone().followed_by(other, from)
            },
            _ => {
                assert(other@.skip(0) =~= other@);
                self.clone().followed_by(other, 0)
            },
        }
    }

    /// Tells whether the path is taken as it stands, without `.` and `..`.
    pub fn is_verbatim(&self) -> (r: bool)
        ensures
            r == has_verbatim_prefix(self@),
    {
        if self.components.len() == 0 {
            return false;
        }
        assert(self@[0] == self.components@[0]@);
        match &self.components[0] {
            PathComponent::Prefix(prefix) => match prefix.kind() {
                PrefixKind::Verbatim(_) | PrefixKind::VerbatimUnc(_, _) | PrefixKind::VerbatimDisk(
                    _,
                ) => true,
                _ => false,
            },
            _ => false,
        }
    }

    /// This path, followed by the components of `other` from `from` on.
    fn followed_by(self, other: &WinPath, from: usize) -> (r: WinPath)
        requires
            from <= other.components@.len(),
        ensures
            r@ == self@ + other@.skip(from as int),
    {
        let mut path: WinPath = self;
        let mut rest: WinPath = other.range(from, other.components.len());
        let ghost before = path.components@;
        let ghost more = rest.components@;
        path.components.append(&mut rest.components);
        assert(path@ =~= component_views(before) + component_views(more));
        assert(other@.subrange(from as int, other@.len() as int) =~= other@.skip(from as int));
        path
    }

    fn join_verbatim(&self, other: &WinPath) -> (r: WinPath)
        ensures
            r@ == joined_verbatim(self@, other@),
    {
        let mut path: WinPath = self.add_verbatim(other);
        if path.components.len() > 1 {
            assert(path@[1] == path.components@[1]@);
            let follows_root: bool = match &path.components[1] {
                PathComponent::RootDir => true,
                _ => false,
            };
            if !follows_root {
                let ghost before = path.components@;
                path.components.insert(1, PathComponent::RootDir);
                assert(path@ =~= component_views(before).insert(1, ComponentModel::RootDir));
            }
        }
        path
    }

    /// This path with the components of `other` added.
    fn add_verbatim(&self, other: &WinPath) -> (r: WinPath)
        ensures
            r@ == added_verbatim(self@, other@),
    {
        let mut path: WinPath = self.clone();
        assert(other@.take(0) =~= Seq::<ComponentModel>::empty());
        for i in 0..other.components.len()
            invariant
                path@ == added_verbatim(self@, other@.take(i as int)),
        {
            proof {
                assert(other@.take(i + 1).drop_last() =~= other@.take(i as int));
                assert(other@.take(i + 1).last() == other.components@[i as int]@);
            }
            let ghost before = path.components@;
            let len: usize = path.components.len();
            match &other.components[i] {
                PathComponent::CurDir => {},
                PathComponent::ParentDir => {
                    if len > 0 {
                        let last_is_name: bool = match &path.components[len - 1] {
                            PathComponent::Normal(_) => true,
                            _ => false,
                        };
                        assert(component_views(before).last() == before[len - 1]@);
                        if last_is_name {
                            let _ = path.components.pop();
                            assert(path@ =~= component_views(before).drop_last());
                        }
                    }
                },
                PathComponent::RootDir => {
                    let kept: usize = if len > 0 {
                        1
                    } else {
                        0
                    };
                    path.components.truncate(kept);
                    let ghost cut = path.components@;
                    assert(component_views(cut) =~= component_views(before).take(kept as int));
                    path.components.push(PathComponent::RootDir);
                    assert(path@ =~= component_views(cut).push(ComponentModel::RootDir));
                },
                c => {
                    path.components.push(copy_component(c));
                    assert(path@ =~= component_views(before).push(c@));
                },
            }
        }
        assert(other@.take(other@.len() as int) =~= other@);
        path
    }

    /// What remains of the path below `base`, if it lies there.
    pub fn strip_prefix(&self, base: &WinPath) -> (r: Option<WinPath>)
        ensures
            match r {
                Some(rest) => is_below(self@, base@) && rest@ == self@.skip(base@.len() as int),
                None => !is_below(self@, base@),
            },
    {
        if begins_with(self, base) {
            Some(self.range(base.components.len(), self.components.len()))
        } else {
            None
        }
    }

    /// The path with `.` left out and `..` resolved by name alone. `readings`
    /// holds for each component the path that it stands for when it is read
    /// alone.
    pub fn normalize_lexically(&self, readings: &Vec<WinPath>) -> (r: WinPath)
        requires
            are_readings(self@, path_views(readings@)),
        ensures
            r@ == lexical_normal_form(self@, path_views(readings@)),
    {
        let mut path: WinPath = WinPath { components: Vec::new() };
        let ghost read = path_views(readings@);
        assert(path@ =~= lexical_normal_form(self@.take(0), read));
        for i in 0..self.components.len()
            invariant
                readings@.len() == self@.len(),
                read == path_views(readings@),
                path@ == lexical_normal_form(self@.take(i as int), read),
        {
            proof {
                assert(self@.take(i + 1).drop_last() =~= self@.take(i as int));
                assert(self@.take(i + 1).last() == self.components@[i as int]@);
                assert(read[i as int] == readings@[i as int]@);
            }
            match &self.components[i] {
                PathComponent::CurDir => {},
                PathComponent::ParentDir => {
                    if let Some(parent) = path.parent() {
                        path = parent;
                    }
                },
                _ => {
                    path = path.join_path(&readings[i]);
                },
            }
        }
        assert(self@.take(self@.len() as int) =~= self@);
        path
    }

    /// The root of the prefix, if the path is a prefix and nothing else.
    pub fn into_rooted(self) -> (r: WinPath)
        ensures
            r@ == rooted(self@),
    {
        let mut path: WinPath = self;
        if path.components.len() == 1 {
            let bare: bool = match &path.components[0] {
                PathComponent::Prefix(_) => true,
                _ => false,
            };
            assert(path@[0] == path.components@[0]@);
            if bare {
                path.components.push(PathComponent::RootDir);
                assert(path@ =~= self@.push(ComponentModel::RootDir));
            }
        }
        path
    }
}

/// What follows the last full stop in `name`, unless the name starts with it,
/// holds none or is `..`.
pub fn extension(name: &Vec<u16>) -> (r: Option<Vec<u16>>)
    ensures
        match r {
            Some(ext) => extension_of(name@) == Some(ext@),
            None => extension_of(name@) is None,
        },
{
    if name.len() == 2 && name[0] == DOT && name[1] == DOT {
        assert(name@ =~= seq![DOT, DOT]);
        return None;
    }
    let mut at: usize = name.len();
    while at > 0
        invariant
            at <= name@.len(),
            forall|k: int| at <= k < name@.len() ==> name@[k] != DOT,
            name@ != seq![DOT, DOT],
        decreases at,
    {
        at = at - 1;
        if name[at] == DOT {
            proof {
                assert(is_last_dot(name@, at as int));
                assert forall|k: int| is_last_dot(name@, k) implies k == at by {
                    if k < at {
                        assert(name@[at as int] != DOT);
                    }
                }
            }
            if at == 0 {
                return None;
            }
            let mut ext: Vec<u16> = Vec::new();
            for i in at + 1..name.len()
                invariant
                    at < name@.len(),
                    ext@ == name@.subrange(at + 1, i as int),
            {
                ext.push(name[i]);
                assert(name@.subrange(at + 1, i + 1) =~= name@.subrange(at + 1, i as int).push(
                    name@[i as int],
                ));
            }
            assert(name@.subrange(at + 1, name@.len() as int) =~= name@.skip(at + 1));
            return Some(ext);
        }
    }
    None
}

/// The models of some paths.
pub open spec fn path_views(paths: Seq<WinPath>) -> Seq<Seq<ComponentModel>> {
    paths.map_values(|p: WinPath| p@)
}

/// No part of the path stands for the same or the parent directory.
pub open spec fn is_dot_free(path: Seq<ComponentModel>) -> bool {
    forall|i: int| 0 <= i < path.len() ==> !((#[trigger] path[i]) is CurDir) && !(path[i] is ParentDir)
}

/// No name of the path stands for a path with `.` or `..` when it is read alone.
pub open spec fn are_dot_free_readings(
    path: Seq<ComponentModel>,
    readings: Seq<Seq<ComponentModel>>,
) -> bool {
    &&& are_readings(path, readings)
    &&& forall|i: int| 0 <= i < path.len() && path[i] is Normal ==> is_dot_free(#[trigger] readings[i])
}

/// Every name of the path stands for itself when it is read alone, as plain names
/// do.
pub open spec fn are_plain_readings(
    path: Seq<ComponentModel>,
    readings: Seq<Seq<ComponentModel>>,
) -> bool {
    &&& are_readings(path, readings)
    &&& forall|i: int|
        0 <= i < path.len() && path[i] is Normal ==> #[trigger] readings[i] == seq![path[i]]
}

/// The components stand where those of a path can stand: a prefix at the start, a
/// root there or behind the prefix, and behind every prefix but that of a volume
/// nothing else than a root.
pub open spec fn is_well_built(path: Seq<ComponentModel>) -> bool {
    &&& forall|i: int| 0 < i < path.len() ==> !((#[trigger] path[i]) is Prefix)
    &&& forall|i: int|
        0 < i < path.len() && (#[trigger] path[i]) is RootDir ==> i == 1 && path[0] is Prefix
    &&& path.len() > 0 && path[0] is Prefix && !(path[0]->kind is Disk) ==> {
        &&& path.len() > 1 ==> path[1] is RootDir
        &&& path[0]->kind is Unc || path[0]->kind is DeviceNs ==> path.len() > 1
    }
}

proof fn lemma_added_is_dot_free(base: Seq<ComponentModel>, other: Seq<ComponentModel>)
    requires
        is_dot_free(base),
        is_dot_free(other),
    ensures
        is_dot_free(added_verbatim(base, other)),
    decreases other.len(),
{
    if other.len() > 0 {
        let front = other.drop_last();
        assert forall|i: int| 0 <= i < front.len() implies !((#[trigger] front[i]) is CurDir)
            && !(front[i] is ParentDir) by {
            assert(front[i] == other[i]);
        }
        lemma_added_is_dot_free(base, front);
        assert(other[other.len() - 1] == other.last());
    }
}

proof fn lemma_joined_is_dot_free(base: Seq<ComponentModel>, other: Seq<ComponentModel>)
    requires
        is_dot_free(base),
        is_dot_free(other),
    ensures
        is_dot_free(joined(base, other)),
{
    lemma_added_is_dot_free(base, other);
    let added = added_verbatim(base, other);
    let path = joined(base, other);
    assert forall|i: int| 0 <= i < path.len() implies !((#[trigger] path[i]) is CurDir)
        && !(path[i] is ParentDir) by {
        if other.len() > 0 && !(other[0] is Prefix) && has_verbatim_prefix(base) {
            if i == 0 {
                assert(path[i] == added[i]);
            } else if added.len() > 1 && !(added[1] is RootDir) {
                if i > 1 {
                    assert(path[i] == added[i - 1]);
                }
            } else {
                assert(path[i] == added[i]);
            }
        } else if i < base.len() {
            assert(!(base[i] is CurDir) && !(base[i] is ParentDir));
            if i < other.len() {
                assert(!(other[i] is CurDir));
            }
            if 0 <= i - 1 < other.len() {
                assert(!(other[i - 1] is CurDir));
            }
        } else if other.len() > 0 {
            assert(!(other[0] is CurDir));
            if i < other.len() {
                assert(!(other[i] is CurDir));
            }
            if 0 <= i - 1 < other.len() {
                assert(!(other[i - 1] is CurDir));
            }
            if 0 <= i - base.len() < other.len() {
                assert(!(other[i - base.len()] is CurDir));
            }
        }
    }
}

/// A normalised path holds neither `.` nor `..`, unless a name of the path stands
/// for one when it is read alone.
pub proof fn normal_form_is_dot_free(
    path: Seq<ComponentModel>,
    readings: Seq<Seq<ComponentModel>>,
)
    requires
        are_dot_free_readings(path, readings),
    ensures
        is_dot_free(lexical_normal_form(path, readings)),
{
    lemma_prefix_is_dot_free(path, readings, path.len() as int);
    assert(path.take(path.len() as int) =~= path);
}

proof fn lemma_prefix_is_dot_free(
    path: Seq<ComponentModel>,
    readings: Seq<Seq<ComponentModel>>,
    k: int,
)
    requires
        are_dot_free_readings(path, readings),
        0 <= k <= path.len(),
    ensures
        is_dot_free(lexical_normal_form(path.take(k), readings)),
    decreases k,
{
    if k > 0 {
        lemma_prefix_is_dot_free(path, readings, k - 1);
        assert(path.take(k).drop_last() =~= path.take(k - 1));
        assert(path.take(k).last() == path[k - 1]);
        let front = lexical_normal_form(path.take(k - 1), readings);
        if !(path[k - 1] is CurDir) && !(path[k - 1] is ParentDir) {
            assert(is_reading(path[k - 1], readings[k - 1]));
            assert(is_dot_free(readings[k - 1]));
            lemma_joined_is_dot_free(front, readings[k - 1]);
        }
    }
}

/// A path that holds neither `.` nor `..` is its own normal form.
pub proof fn dot_free_paths_are_normal(
    path: Seq<ComponentModel>,
    readings: Seq<Seq<ComponentModel>>,
)
    requires
        is_dot_free(path),
        is_well_built(path),
        are_plain_readings(path, readings),
    ensures
        lexical_normal_form(path, readings) == path,
{
    lemma_prefix_is_normal(path, readings, path.len() as int);
    assert(path.take(path.len() as int) =~= path);
    if path.len() == 1 && path[0] is Prefix {
        assert(is_reading(path[0], readings[0]));
        assert(readings[0] =~= path);
    }
}

proof fn lemma_prefix_is_normal(
    path: Seq<ComponentModel>,
    readings: Seq<Seq<ComponentModel>>,
    k: int,
)
    requires
        is_dot_free(path),
        is_well_built(path),
        are_plain_readings(path, readings),
        0 <= k <= path.len(),
    ensures
        lexical_normal_form(path.take(k), readings) == if k == 1 && path[0] is Prefix {
            readings[0]
        } else {
            path.take(k)
        },
    decreases k,
{
    reveal_with_fuel(added_verbatim, 2);
    if k > 0 {
        lemma_prefix_is_normal(path, readings, k - 1);
        assert(path.take(k).drop_last() =~= path.take(k - 1));
        assert(path.take(k).last() == path[k - 1]);
        let front = lexical_normal_form(path.take(k - 1), readings);
        let c = path[k - 1];
        let reading = readings[k - 1];
        assert(is_reading(c, reading));
        assert(!(c is CurDir) && !(c is ParentDir));
        if k == 1 {
            assert(front =~= Seq::empty());
            assert(!(c is Prefix) ==> joined(front, reading) =~= path.take(1));
        } else {
            assert(reading == seq![c]);
            assert(reading.drop_last() =~= Seq::empty());
            assert(is_reading(path[0], readings[0]));
            assert(joined(front, reading) =~= path.take(k));
        }
    }
}

proof fn lemma_added_is_well_built(base: Seq<ComponentModel>, other: Seq<ComponentModel>)
    requires
        is_well_built(base),
        has_verbatim_prefix(base),
        forall|i: int| 0 <= i < other.len() ==> !((#[trigger] other[i]) is Prefix),
        forall|i: int| 0 < i < other.len() ==> !((#[trigger] other[i]) is RootDir),
    ensures
        added_verbatim(base, other).len() > 0,
        added_verbatim(base, other)[0] == base[0],
        forall|i: int|
            0 < i < added_verbatim(base, other).len() ==> !((#[trigger] added_verbatim(
                base,
                other,
            )[i]) is Prefix) && (added_verbatim(base, other)[i] is RootDir ==> i == 1),
    decreases other.len(),
{
    if other.len() > 0 {
        let front = other.drop_last();
        assert forall|i: int| 0 <= i < front.len() implies !((#[trigger] front[i]) is Prefix) by {
            assert(front[i] == other[i]);
        }
        assert forall|i: int| 0 < i < front.len() implies !((#[trigger] front[i]) is RootDir) by {
            assert(front[i] == other[i]);
        }
        lemma_added_is_well_built(base, front);
        assert(other[other.len() - 1] == other.last());
    }
}

proof fn lemma_joined_is_well_built(base: Seq<ComponentModel>, other: Seq<ComponentModel>)
    requires
        is_well_built(base),
        is_well_built(other),
    ensures
        is_well_built(joined(base, other)),
{
    if other.len() > 0 && !(other[0] is Prefix) {
        if has_verbatim_prefix(base) {
            lemma_added_is_well_built(base, other);
        } else {
            let path = joined(base, other);
            assert forall|i: int| 0 < i < path.len() implies !((#[trigger] path[i]) is Prefix)
                && (path[i] is RootDir ==> i == 1 && path[0] is Prefix) by {
                if i < base.len() {
                    assert(base[i] is RootDir ==> i == 1 && base[0] is Prefix);
                }
                let from_start = i - base.len();
                if 0 <= from_start < other.len() {
                    assert(other[from_start] is RootDir ==> from_start == 0);
                }
                if 0 <= from_start + 1 < other.len() {
                    assert(!(other[from_start + 1] is Prefix));
                }
                if 0 <= i - 1 < other.len() {
                    assert(!(other[i - 1] is Prefix));
                }
            }
        }
    }
}

proof fn lemma_prefix_is_well_built(
    path: Seq<ComponentModel>,
    readings: Seq<Seq<ComponentModel>>,
    k: int,
)
    requires
        forall|i: int| 0 <= i < readings.len() ==> is_well_built(#[trigger] readings[i]),
        readings.len() == path.len(),
        0 <= k <= path.len(),
    ensures
        is_well_built(lexical_normal_form(path.take(k), readings)),
    decreases k,
{
    if k > 0 {
        lemma_prefix_is_well_built(path, readings, k - 1);
        assert(path.take(k).drop_last() =~= path.take(k - 1));
        let front = lexical_normal_form(path.take(k - 1), readings);
        assert(is_well_built(readings[k - 1]));
        lemma_joined_is_well_built(front, readings[k - 1]);
        assert(is_well_built(popped(front)));
    }
}

/// Normalising a path a second time changes nothing, unless a name of the path
/// stands for `.` or `..` when it is read alone, or a name of the result for
/// something else than itself.
pub proof fn normalising_twice_is_once(
    path: Seq<ComponentModel>,
    readings: Seq<Seq<ComponentModel>>,
    again: Seq<Seq<ComponentModel>>,
)
    requires
        are_dot_free_readings(path, readings),
        forall|i: int| 0 <= i < readings.len() ==> is_well_built(#[trigger] readings[i]),
        are_plain_readings(lexical_normal_form(path, readings), again),
    ensures
        lexical_normal_form(lexical_normal_form(path, readings), again) == lexical_normal_form(
            path,
            readings,
        ),
{
    normal_form_is_dot_free(path, readings);
    lemma_prefix_is_well_built(path, readings, path.len() as int);
    assert(path.take(path.len() as int) =~= path);
    dot_free_paths_are_normal(lexical_normal_form(path, readings), again);
}

/// What lies below a base is what is left when the base is taken off: joined to
/// the base again it is the same path.
pub proof fn stripping_undoes_joining(base: Seq<ComponentModel>, rest: Seq<ComponentModel>)
    ensures
        is_below(base + rest, base),
        (base + rest).skip(base.len() as int) == rest,
{
    assert(path_key(base + rest).take(base.len() as int) =~= path_key(base));
    assert((base + rest).skip(base.len() as int) =~= rest);
}

} // verus!
