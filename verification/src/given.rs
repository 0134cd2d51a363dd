//! Windows paths together with their text.
//!
//! Several spellings lead to one path: `C:/Temp` and `C:\Temp` have the same
//! components. Where the text of a path is shown or handed on, it is kept beside
//! the components, and what is added to the path is added to the text.

use vstd::prelude::*;

use crate::path::{
    append_units, copy_units, has_verbatim_prefix, is_separator, joined, path_text, ComponentModel,
    PathComponent, PrefixKind, WinPath, SEPARATOR, SLASH,
};

verus! {

/// A path as it was given.
#[derive(Debug)]
pub struct GivenPath {
    /// How it is spelled.
    pub text: Vec<u16>,
    /// What the system reads in the text.
    pub path: WinPath,
}

#[verifier::ext_equal]
pub struct GivenModel {
    pub text: Seq<u16>,
    pub path: Seq<ComponentModel>,
}

impl View for GivenPath {
    type V = GivenModel;

    open spec fn view(&self) -> GivenModel {
        GivenModel { text: self.text@, path: self.path@ }
    }
}

/// The view of a path that may be missing.
pub open spec fn given_view(path: Option<GivenPath>) -> Option<GivenModel> {
    match path {
        Some(p) => Some(p@),
        None => None,
    }
}

/// The views of some paths.
pub open spec fn given_views(paths: Seq<GivenPath>) -> Seq<GivenModel> {
    paths.map_values(|p: GivenPath| p@)
}

/// The entry `name`, where the name is read as one entry.
pub open spec fn entry(name: Seq<u16>) -> GivenModel {
    GivenModel { text: name, path: seq![ComponentModel::Normal(name)] }
}

/// The path `path`, spelled with single backslashes.
pub open spec fn spelled(path: Seq<ComponentModel>) -> GivenModel {
    GivenModel { text: path_text(path), path }
}

/// The path is the letter of a volume and nothing else.
pub open spec fn is_bare_volume(path: Seq<ComponentModel>) -> bool {
    path.len() == 1 && path[0] is Prefix && path[0]->kind is Disk
}

/// What stands between the text of a path and the text of what is taken from it:
/// a separator, unless the path ends in one, has no text or is the letter of a
/// volume.
pub open spec fn gap(base: GivenModel) -> Seq<u16> {
    if base.text.len() == 0 || is_separator(base.text.last()) || is_bare_volume(base.path) {
        Seq::empty()
    } else {
        seq![SEPARATOR]
    }
}

/// The text of the prefix of a path.
pub open spec fn prefix_text(path: Seq<ComponentModel>) -> Seq<u16> {
    if path.len() > 0 && path[0] is Prefix {
        path[0]->text
    } else {
        Seq::empty()
    }
}

/// The text of the path that `other` stands for when it is taken from `base`. One
/// with a prefix keeps its text. From a path that is taken as it stands, the
/// components are spelled anew. One with a root follows the prefix of `base`, and
/// all else follows the text of `base`.
pub open spec fn joined_text(base: GivenModel, other: GivenModel) -> Seq<u16> {
    if other.path.len() > 0 && other.path[0] is Prefix {
        other.text
    } else if has_verbatim_prefix(base.path) && other.text.len() > 0 {
        path_text(joined(base.path, other.path))
    } else if other.path.len() > 0 && other.path[0] is RootDir {
        prefix_text(base.path) + other.text
    } else {
        base.text + gap(base) + other.text
    }
}

/// The path that `other` stands for when it is taken from `base`.
pub open spec fn joined_given(base: GivenModel, other: GivenModel) -> GivenModel {
    GivenModel { text: joined_text(base, other), path: joined(base.path, other.path) }
}

impl Clone for GivenPath {
    fn clone(&self) -> (r: Self)
        ensures
            r@ == self@,
    {
        GivenPath { text: copy_units(&self.text), path: self.path.clone() }
    }
}

impl GivenPath {
    /// The entry `name`, a name that is read as one entry.
    pub fn entry(name: Vec<u16>) -> (r: GivenPath)
        ensures
            r@ == entry(name@),
    {
        let text: Vec<u16> = copy_units(&name);
        let path: WinPath = WinPath { components: vec![PathComponent::Normal(name)] };
        assert(path@ =~= seq![ComponentModel::Normal(text@)]);
        GivenPath { text, path }
    }

    /// The path `path`, spelled with single backslashes.
    pub fn of(path: WinPath) -> (r: GivenPath)
        ensures
            r@ == spelled(path@),
    {
        GivenPath { text: path.to_units(), path }
    }

    fn is_bare_volume(&self) -> (r: bool)
        ensures
            r == is_bare_volume(self.path@),
    {
        if self.path.components.len() != 1 {
            return false;
        }
        assert(self.path@[0] == self.path.components@[0]@);
        match &self.path.components[0] {
            PathComponent::Prefix(prefix) => match prefix.kind() {
                PrefixKind::Disk(_) => true,
                _ => false,
            },
            _ => false,
        }
    }

    /// The text of the prefix.
    fn prefix_text(&self) -> (r: Vec<u16>)
        ensures
            r@ == prefix_text(self.path@),
    {
        if self.path.components.len() == 0 {
            return Vec::new();
        }
        assert(self.path@[0] == self.path.components@[0]@);
        match &self.path.components[0] {
            PathComponent::Prefix(prefix) => copy_units(prefix.text()),
            _ => Vec::new(),
        }
    }

    /// The path that `other` stands for when it is taken from this path.
    pub fn join(&self, other: &GivenPath) -> (r: GivenPath)
        ensures
            r@ == joined_given(self@, other@),
    {
        let path: WinPath = self.path.join_path(&other.path);
        if other.path.components.len() > 0 {
            assert(other.path@[0] == other.path.components@[0]@);
            if let PathComponent::Prefix(_) = &other.path.components[0] {
                return GivenPath { text: copy_units(&other.text), path };
            }
        }
        if self.path.is_verbatim() && other.text.len() > 0 {
            return GivenPath { text: path.to_units(), path };
        }
        if other.path.components.len() > 0 {
            if let PathComponent::RootDir = &other.path.components[0] {
                let mut text: Vec<u16> = self.prefix_text();
                append_units(&mut text, &other.text);
                return GivenPath { text, path };
            }
        }
        let mut text: Vec<u16> = copy_units(&self.text);
        let len: usize = text.len();
        let ghost before = text@;
        if len > 0 && text[len - 1] != SEPARATOR && text[len - 1] != SLASH
            && !self.is_bare_volume() {
            text.push(SEPARATOR);
        }
        assert(text@ =~= before + gap(self@));
        append_units(&mut text, &other.text);
        GivenPath { text, path }
    }
}

} // verus!
