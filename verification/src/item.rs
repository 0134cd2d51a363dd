//! What happened to a tracked file or registry key.

use vstd::prelude::*;

verus! {

/// The changes that were seen on one item.
#[derive(Debug, Clone, Copy, PartialEq, Eq, Structural)]
pub struct ItemMetadata {
    pub created: bool,
    pub modified: bool,
    pub deleted: bool,
    pub renamed: bool,
}

/// One kind of change.
#[derive(Debug, Clone, Copy, PartialEq, Eq, Structural)]
pub enum ItemAction {
    Create,
    Modify,
    Delete,
    Rename,
}

/// No change at all.
pub open spec fn untouched() -> ItemMetadata {
    ItemMetadata { created: false, modified: false, deleted: false, renamed: false }
}

/// The changes that are in `a` or in `b`.
pub open spec fn merged(a: ItemMetadata, b: ItemMetadata) -> ItemMetadata {
    ItemMetadata {
        created: a.created || b.created,
        modified: a.modified || b.modified,
        deleted: a.deleted || b.deleted,
        renamed: a.renamed || b.renamed,
    }
}

impl Default for ItemMetadata {
    fn default() -> (r: Self)
        ensures
            r == untouched(),
    {
        ItemMetadata { created: false, modified: false, deleted: false, renamed: false }
    }
}

impl ItemMetadata {
    /// Adds the changes of `other`.
    pub fn merge(&mut self, other: &Self)
        ensures
            *final(self) == merged(*old(self), *other),
    {
        self.created = self.created || other.created;
        self.modified = self.modified || other.modified;
        self.deleted = self.deleted || other.deleted;
        self.renamed = self.renamed || other.renamed;
    }

    /// Sets whether the item was created.
    pub fn create(self, value: bool) -> (r: Self)
        ensures
            r == (ItemMetadata { created: value, ..self }),
    {
        ItemMetadata { created: value, ..self }
    }

    /// Sets whether the item was modified.
    pub fn modify(self, value: bool) -> (r: Self)
        ensures
            r == (ItemMetadata { modified: value, ..self }),
    {
        ItemMetadata { modified: value, ..self }
    }

    /// Sets whether the item was deleted.
    pub fn delete(self, value: bool) -> (r: Self)
        ensures
            r == (ItemMetadata { deleted: value, ..self }),
    {
        ItemMetadata { deleted: value, ..self }
    }

    /// Sets whether the item was renamed.
    pub fn rename(self, value: bool) -> (r: Self)
        ensures
            r == (ItemMetadata { renamed: value, ..self }),
    {
        ItemMetadata { renamed: value, ..self }
    }

    /// Tells whether no change was seen.
    pub fn is_empty(&self) -> (r: bool)
        ensures
            r == (*self == untouched()),
    {
        !self.created && !self.modified && !self.deleted && !self.renamed
    }
}

/// The metadata with exactly the change `action`.
pub open spec fn only(action: ItemAction) -> ItemMetadata {
    ItemMetadata {
        created: action == ItemAction::Create,
        modified: action == ItemAction::Modify,
        deleted: action == ItemAction::Delete,
        renamed: action == ItemAction::Rename,
    }
}

impl From<ItemAction> for ItemMetadata {
    fn from(action: ItemAction) -> (r: Self) {
        ItemMetadata {
            created: action == ItemAction::Create,
            modified: action == ItemAction::Modify,
            deleted: action == ItemAction::Delete,
            renamed: action == ItemAction::Rename,
        }
    }
}

impl vstd::std_specs::convert::FromSpecImpl<ItemAction> for ItemMetadata {
    open spec fn obeys_from_spec() -> bool {
        true
    }

    open spec fn from_spec(action: ItemAction) -> ItemMetadata {
        only(action)
    }
}

/// The order in which changes are merged does not matter, nor how they are
/// grouped, nor whether one is merged twice; merging no change keeps what is
/// there.
pub proof fn merging_is_a_union(a: ItemMetadata, b: ItemMetadata, c: ItemMetadata)
    ensures
        merged(a, b) == merged(b, a),
        merged(merged(a, b), c) == merged(a, merged(b, c)),
        merged(a, a) == a,
        merged(a, untouched()) == a,
{
}

/// Merging never loses a change: what is merged is empty only if both sides
/// were.
pub proof fn merging_keeps_changes(a: ItemMetadata, b: ItemMetadata)
    ensures
        merged(a, b) == untouched() <==> a == untouched() && b == untouched(),
{
}

} // verus!
