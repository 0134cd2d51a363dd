//! What is known of items, and how it grows.

use vstd::prelude::*;

use crate::changes::{
    gathered, gathered_is_the_union_of_sightings, keyed, recorded, regroup, with_names, ChangeKey,
    ChangeMap, ItemMap,
};
use crate::item::{ItemAction, ItemMetadata};
use crate::laws::effects::notes;
use crate::laws::recording::asks_for;
use crate::monitor::procmon::{are_keys, LogChanges, MonitorResult, RegistryKey};
use crate::monitor::winapi::{found_below, Watch};
use crate::options::MonitorOptions;
use crate::path::{joined, path_key, ComponentModel, WinPath};

verus! {

/// Of some changes those are kept that the options ask for.
pub proof fn wanted_changes_are_kept(
    options: &MonitorOptions,
    meta: &ItemMetadata,
    r: ItemMetadata,
    action: ItemAction,
)
    requires
        call_ensures(MonitorOptions::keep_wanted, (options, meta), r),
    ensures
        notes(r, action) <==> notes(*meta, action) && asks_for(*options, action),
{
}

/// Merging notes what either side notes.
pub proof fn merging_notes_what_either_side_notes(
    meta: &mut ItemMetadata,
    other: &ItemMetadata,
    action: ItemAction,
)
    requires
        call_ensures(ItemMetadata::merge, (meta, other), ()),
    ensures
        notes(*final(meta), action) <==> notes(*old(meta), action) || notes(*other, action),
{
}

/// Metadata is empty exactly if it notes no change.
pub proof fn empty_metadata_notes_nothing(meta: &ItemMetadata, r: bool)
    requires
        call_ensures(ItemMetadata::is_empty, (meta,), r),
    ensures
        r <==> !meta.created && !meta.modified && !meta.deleted && !meta.renamed,
{
}

/// What is put in place of what was known of an item is known of it from then on,
/// and nothing changes for any other item.
pub proof fn inserting_changes_one_item<K: ChangeKey, V>(
    map: &mut ItemMap<K, V>,
    name: K,
    value: V,
    k: K::Key,
)
    requires
        call_ensures(ItemMap::<K, V>::insert, (map, name, value), ()),
    ensures
        k == name.key() ==> final(map)@.dom().contains(k) && final(map)@[k] == value,
        k != name.key() ==> final(map)@.dom().contains(k) == old(map)@.dom().contains(k)
            && final(map)@[k] == old(map)@[k],
{
}

/// What is recorded of an item is noted of it besides what was noted before, and
/// nothing changes for any other item.
pub proof fn recording_adds_to_one_item<K: ChangeKey>(
    map: &mut ChangeMap<K>,
    name: K,
    meta: &ItemMetadata,
    k: K::Key,
    action: ItemAction,
)
    requires
        call_ensures(ItemMap::<K, ItemMetadata>::record, (map, name, meta), ()),
    ensures
        k == name.key() ==> final(map)@.dom().contains(k) && (notes(final(map)@[k], action)
            <==> notes(*meta, action) || (old(map)@.dom().contains(k) && notes(
            old(map)@[k],
            action,
        ))),
        k != name.key() ==> final(map)@.dom().contains(k) == old(map)@.dom().contains(k)
            && final(map)@[k] == old(map)@[k],
{
}

/// What is looked up is what is known.
pub proof fn looking_up_finds_what_is_known<K: ChangeKey, V>(
    map: &ItemMap<K, V>,
    name: &K,
    r: Option<&V>,
)
    requires
        call_ensures(ItemMap::<K, V>::get, (map, name), r),
    ensures
        r is Some <==> map@.dom().contains(name.key()),
        r matches Some(value) ==> *value == map@[name.key()],
{
}

/// Listed under other names, an item is known exactly if one of the entries got a
/// name that stands for it, and a change is noted of it exactly if one of those
/// entries notes it.
pub proof fn regrouped_items_keep_their_changes<K: ChangeKey, P: ChangeKey>(
    changes: &ChangeMap<K>,
    names: Vec<P>,
    r: ChangeMap<P>,
    k: P::Key,
    action: ItemAction,
)
    requires
        call_ensures(regroup::<K, P>, (changes, names), r),
        names@.len() == changes.listed().len(),
    ensures
        r@.dom().contains(k) <==> exists|i: int|
            0 <= i < names@.len() && (#[trigger] names@[i]).key() == k,
        r@.dom().contains(k) ==> (notes(r@[k], action) <==> exists|i: int|
            0 <= i < names@.len() && (#[trigger] names@[i]).key() == k && notes(
                changes.listed()[i].1,
                action,
            )),
{
    lemma_regrouped(changes.listed(), names@, k, action);
}

proof fn lemma_regrouped<K, P: ChangeKey>(
    entries: Seq<(K, ItemMetadata)>,
    names: Seq<P>,
    k: P::Key,
    action: ItemAction,
)
    requires
        names.len() == entries.len(),
    ensures
        ({
            let found = gathered(keyed(with_names(entries, names)));
            &&& found.dom().contains(k) <==> exists|i: int|
                0 <= i < names.len() && (#[trigger] names[i]).key() == k
            &&& found.dom().contains(k) ==> (notes(found[k], action) <==> exists|i: int|
                0 <= i < names.len() && (#[trigger] names[i]).key() == k && notes(
                    entries[i].1,
                    action,
                ))
        }),
{
    let seen = keyed(with_names(entries, names));
    gathered_is_the_union_of_sightings(seen, k);
    assert forall|i: int| 0 <= i < names.len() implies (#[trigger] seen[i]).0 == names[i].key()
        && seen[i].1 == entries[i].1 by {}
    let found = gathered(seen);
    if exists|i: int| 0 <= i < names.len() && (#[trigger] names[i]).key() == k {
        let i = choose|i: int| 0 <= i < names.len() && (#[trigger] names[i]).key() == k;
        assert(seen[i].0 == k);
    }
    if found.dom().contains(k) {
        let i = choose|i: int| 0 <= i < seen.len() && (#[trigger] seen[i]).0 == k;
        assert(names[i].key() == k);
        if notes(found[k], action) {
            let i = choose|i: int|
                0 <= i < seen.len() && (#[trigger] seen[i]).0 == k && notes(seen[i].1, action);
            assert(names[i].key() == k);
        }
        if exists|i: int|
            0 <= i < names.len() && (#[trigger] names[i]).key() == k && notes(
                entries[i].1,
                action,
            ) {
            let i = choose|i: int|
                0 <= i < names.len() && (#[trigger] names[i]).key() == k && notes(
                    entries[i].1,
                    action,
                );
            assert(seen[i].0 == k && notes(seen[i].1, action));
        }
    }
}

/// By path, a log lists a file exactly if one of its names stands for it, and a
/// change of it exactly if the log lists that change under one of those names. So
/// it is with registry keys.
pub proof fn logs_are_listed_by_path(
    changes: &LogChanges,
    file_paths: Vec<WinPath>,
    key_paths: Vec<WinPath>,
    r: MonitorResult,
    path: &WinPath,
    action: ItemAction,
)
    requires
        call_ensures(LogChanges::by_path, (changes, file_paths, key_paths), r),
        file_paths@.len() == changes.files.listed().len(),
        key_paths@.len() == changes.registry_keys.listed().len(),
    ensures
        r.files@.dom().contains(path_key(path@)) && notes(r.files@[path_key(path@)], action)
            <==> exists|i: int|
            0 <= i < file_paths@.len() && path_key((#[trigger] file_paths@[i])@) == path_key(path@)
                && notes(changes.files.listed()[i].1, action),
        r.registry_keys@.dom().contains(path_key(path@)) && notes(
            r.registry_keys@[path_key(path@)],
            action,
        ) <==> exists|i: int|
            0 <= i < key_paths@.len() && path_key((#[trigger] key_paths@[i])@) == path_key(path@)
                && notes(changes.registry_keys.listed()[i].1, action),
{
    let k = path_key(path@);
    let entries = changes.files.listed();
    lemma_regrouped(entries, file_paths@, k, action);
    assert forall|i: int| 0 <= i < file_paths@.len() implies (#[trigger] file_paths@[i]).key()
        == path_key(file_paths@[i]@) by {}
    if exists|i: int|
        0 <= i < file_paths@.len() && path_key((#[trigger] file_paths@[i])@) == k && notes(
            entries[i].1,
            action,
        ) {
        let i = choose|i: int|
            0 <= i < file_paths@.len() && path_key((#[trigger] file_paths@[i])@) == k && notes(
                entries[i].1,
                action,
            );
        assert(file_paths@[i].key() == k);
    }
    let key_entries = changes.registry_keys.listed();
    let keys = choose|keys: Seq<RegistryKey>| #[trigger]
        are_keys(keys, key_entries, key_paths@) && r.registry_keys@ == gathered(
            keyed(with_names(key_entries, keys)),
        ) && r.registry_keys.listed() == recorded(with_names(key_entries, keys));
    lemma_regrouped(key_entries, keys, k, action);
    assert forall|i: int| 0 <= i < keys.len() implies (#[trigger] keys[i]).key() == path_key(
        key_paths@[i]@,
    ) by {}
    if r.registry_keys@.dom().contains(k) && notes(r.registry_keys@[k], action) {
        let i = choose|i: int|
            0 <= i < keys.len() && (#[trigger] keys[i]).key() == k && notes(
                key_entries[i].1,
                action,
            );
        assert(path_key(key_paths@[i]@) == k);
    }
    if exists|i: int|
        0 <= i < key_paths@.len() && path_key((#[trigger] key_paths@[i])@) == k && notes(
            key_entries[i].1,
            action,
        ) {
        let i = choose|i: int|
            0 <= i < key_paths@.len() && path_key((#[trigger] key_paths@[i])@) == k && notes(
                key_entries[i].1,
                action,
            );
        assert(keys[i].key() == k);
    }
}

/// By path, a watching lists a file exactly if one of its names leads to it from
/// the folder, and a change of it exactly if the change was seen under one of those
/// names.
pub proof fn watchings_are_listed_by_path(
    watch: &Watch,
    names: &Vec<WinPath>,
    r: ChangeMap<WinPath>,
    path: &WinPath,
    action: ItemAction,
)
    requires
        call_ensures(Watch::by_path, (watch, names), r),
        names@.len() == watch.changes.listed().len(),
    ensures
        r@.dom().contains(path_key(path@)) && notes(r@[path_key(path@)], action) <==> exists|i: int|
            0 <= i < names@.len() && path_key(
                joined(watch.options.path.path@, (#[trigger] names@[i])@),
            ) == path_key(path@) && notes(watch.changes.listed()[i].1, action),
{
    let k = path_key(path@);
    let entries = watch.changes.listed();
    let folder = watch.options.path.path@;
    let seen = found_below(folder, entries, names@);
    gathered_is_the_union_of_sightings(seen, k);
    assert forall|i: int| 0 <= i < names@.len() implies (#[trigger] seen[i]).0 == path_key(
        joined(folder, names@[i]@),
    ) && seen[i].1 == entries[i].1 by {}
    if r@.dom().contains(k) && notes(r@[k], action) {
        let i = choose|i: int|
            0 <= i < seen.len() && (#[trigger] seen[i]).0 == k && notes(seen[i].1, action);
        assert(path_key(joined(folder, names@[i]@)) == k);
    }
    if exists|i: int|
        0 <= i < names@.len() && path_key(joined(folder, (#[trigger] names@[i])@)) == k && notes(
            entries[i].1,
            action,
        ) {
        let i = choose|i: int|
            0 <= i < names@.len() && path_key(joined(folder, (#[trigger] names@[i])@)) == k
                && notes(entries[i].1, action);
        assert(seen[i].0 == k && notes(seen[i].1, action));
    }
}

/// What is known after each of `values` was put under its key in turn.
pub open spec fn put_in_turn<Key, V>(keys: Seq<Key>, values: Seq<V>) -> Map<Key, V>
    decreases keys.len(),
{
    if keys.len() == 0 {
        Map::empty()
    } else {
        put_in_turn(keys.drop_last(), values).insert(keys.last(), values[keys.len() - 1])
    }
}

/// Of values that were put under the same key the last one counts.
pub proof fn the_last_value_counts<Key, V>(keys: Seq<Key>, values: Seq<V>, k: Key)
    ensures
        put_in_turn(keys, values).dom().contains(k) <==> keys.contains(k),
        forall|i: int|
            0 <= i < keys.len() && #[trigger] keys[i] == k && (forall|j: int|
                i < j < keys.len() ==> #[trigger] keys[j] != k) ==> put_in_turn(keys, values)[k]
                == values[i],
    decreases keys.len(),
{
    if keys.len() > 0 {
        let front = keys.drop_last();
        let at = keys.len() - 1;
        the_last_value_counts(front, values, k);
        assert(forall|i: int| 0 <= i < at ==> #[trigger] front[i] == keys[i]);
        assert(keys[at] == keys.last());
        if front.contains(k) {
            let i = choose|i: int| 0 <= i < front.len() && front[i] == k;
            assert(keys[i] == k);
        }
        if keys.contains(k) && keys.last() != k {
            let i = choose|i: int| 0 <= i < keys.len() && keys[i] == k;
            assert(front[i] == k);
        }
        assert forall|i: int|
            0 <= i < keys.len() && #[trigger] keys[i] == k && (forall|j: int|
                i < j < keys.len() ==> #[trigger] keys[j] != k) implies put_in_turn(
            keys,
            values,
        )[k] == values[i] by {
            if i < at {
                assert(keys[at] != k);
                assert(front[i] == k);
                assert(forall|j: int| i < j < front.len() ==> #[trigger] front[j] != k);
            }
        }
    }
}

pub(crate) proof fn lemma_paths_of_keys(
    paths: Seq<WinPath>,
    keys: Seq<Seq<ComponentModel>>,
    k: Seq<ComponentModel>,
)
    requires
        keys.len() == paths.len(),
        forall|i: int| 0 <= i < keys.len() ==> #[trigger] keys[i] == path_key(paths[i]@),
    ensures
        keys.contains(k) <==> exists|i: int|
            0 <= i < paths.len() && path_key((#[trigger] paths[i])@) == k,
        forall|i: int|
            0 <= i < paths.len() ==> path_key((#[trigger] paths[i])@) == keys[i],
{
    assert forall|i: int| 0 <= i < paths.len() implies path_key((#[trigger] paths[i])@)
        == keys[i] by {}
    if keys.contains(k) {
        let i = choose|i: int| 0 <= i < keys.len() && keys[i] == k;
        assert(path_key(paths[i]@) == k);
    }
    if exists|i: int| 0 <= i < paths.len() && path_key((#[trigger] paths[i])@) == k {
        let i = choose|i: int| 0 <= i < paths.len() && path_key((#[trigger] paths[i])@) == k;
        assert(keys[i] == k);
    }
}

} // verus!
