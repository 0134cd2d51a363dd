//! The changes of a run, gathered per file or registry key.

use vstd::prelude::*;

use crate::item::{merged, untouched, ItemAction, ItemMetadata};
use crate::text::same_text;

verus! {

/// What names a file or a registry key.
pub trait ChangeKey: Sized {
    type Key;

    /// What two names have in common that stand for the same item.
    spec fn key(&self) -> Self::Key;

    /// Tells whether both names stand for the same item.
    fn same_key(&self, other: &Self) -> (r: bool)
        ensures
            r == (self.key() == other.key()),
    ;
}

impl ChangeKey for String {
    type Key = Seq<char>;

    open spec fn key(&self) -> Seq<char> {
        self@
    }

    fn same_key(&self, other: &Self) -> (r: bool) {
        same_text(self.as_str(), other.as_str())
    }
}

impl ChangeKey for Vec<u16> {
    type Key = Seq<u16>;

    open spec fn key(&self) -> Seq<u16> {
        self@
    }

    fn same_key(&self, other: &Self) -> (r: bool) {
        same_units(self, other)
    }
}

/// Tells whether two texts hold the same units.
pub fn same_units(a: &Vec<u16>, b: &Vec<u16>) -> (r: bool)
    ensures
        r == (a@ == b@),
{
    if a.len() != b.len() {
        return false;
    }
    for i in 0..a.len()
        invariant
            a@.len() == b@.len(),
            forall|k: int| 0 <= k < i ==> a@[k] == b@[k],
    {
        if a[i] != b[i] {
            return false;
        }
    }
    assert(a@ =~= b@);
    true
}

/// Some entry of `entries` has the key `k`.
pub open spec fn has_key<K: ChangeKey, V>(entries: Seq<(K, V)>, k: K::Key) -> bool {
    exists|i: int| 0 <= i < entries.len() && (#[trigger] entries[i]).0.key() == k
}

/// Where the key `k` stands in `entries`.
pub open spec fn position<K: ChangeKey, V>(entries: Seq<(K, V)>, k: K::Key) -> int {
    choose|i: int| 0 <= i < entries.len() && (#[trigger] entries[i]).0.key() == k
}

/// What `entries` say of each key.
pub open spec fn as_map<K: ChangeKey, V>(entries: Seq<(K, V)>) -> Map<
    K::Key,
    V,
> {
    Map::new(|k: K::Key| has_key(entries, k), |k: K::Key| entries[position(entries, k)].1)
}

/// No two of `entries` have the same key.
pub open spec fn distinct_keys<K: ChangeKey, V>(entries: Seq<(K, V)>) -> bool {
    forall|i: int, j: int|
        0 <= i < entries.len() && 0 <= j < entries.len() && i != j
            ==> (#[trigger] entries[i]).0.key() != (#[trigger] entries[j]).0.key()
}

/// `entries` after `value` was put in the place of whatever stood for the item
/// `name`. An item that is new comes last.
pub open spec fn inserted<K: ChangeKey, V>(entries: Seq<(K, V)>, name: K, value: V) -> Seq<(K, V)> {
    if has_key(entries, name.key()) {
        let at = position(entries, name.key());
        entries.update(at, (entries[at].0, value))
    } else {
        entries.push((name, value))
    }
}

/// The entries after each of `pairs` was inserted in turn.
pub open spec fn inserted_all<K: ChangeKey, V>(pairs: Seq<(K, V)>) -> Seq<(K, V)>
    decreases pairs.len(),
{
    if pairs.len() == 0 {
        Seq::empty()
    } else {
        inserted(inserted_all(pairs.drop_last()), pairs.last().0, pairs.last().1)
    }
}

/// What `entries` say of the item with the key `k`.
pub open spec fn known<K: ChangeKey>(entries: Seq<(K, ItemMetadata)>, k: K::Key) -> ItemMetadata {
    if has_key(entries, k) {
        entries[position(entries, k)].1
    } else {
        untouched()
    }
}

/// The entries after each of `sightings` was recorded in turn.
pub open spec fn recorded<K: ChangeKey>(sightings: Seq<(K, ItemMetadata)>) -> Seq<
    (K, ItemMetadata),
>
    decreases sightings.len(),
{
    if sightings.len() == 0 {
        Seq::empty()
    } else {
        let front = recorded(sightings.drop_last());
        let (name, meta) = sightings.last();
        inserted(front, name, merged(known(front, name.key()), meta))
    }
}

/// What `entries` say, each under the name that `names` gives it.
pub open spec fn with_names<K, P>(entries: Seq<(K, ItemMetadata)>, names: Seq<P>) -> Seq<
    (P, ItemMetadata),
> {
    Seq::new(names.len(), |i: int| (names[i], entries[i].1))
}

/// The keys of `pairs` with what the pairs say of them.
pub open spec fn keyed<P: ChangeKey>(pairs: Seq<(P, ItemMetadata)>) -> Seq<
    (P::Key, ItemMetadata),
> {
    pairs.map_values(|pair: (P, ItemMetadata)| (pair.0.key(), pair.1))
}

/// `changes` after one more sighting: what was seen of `k` is joined by `meta`.
pub open spec fn sighted<Key>(
    changes: Map<Key, ItemMetadata>,
    k: Key,
    meta: ItemMetadata,
) -> Map<Key, ItemMetadata> {
    let before = if changes.dom().contains(k) {
        changes[k]
    } else {
        untouched()
    };
    changes.insert(k, merged(before, meta))
}

/// What a sequence of sightings amounts to.
pub open spec fn gathered<Key>(sightings: Seq<(Key, ItemMetadata)>) -> Map<Key, ItemMetadata>
    decreases sightings.len(),
{
    if sightings.len() == 0 {
        Map::empty()
    } else {
        sighted(gathered(sightings.drop_last()), sightings.last().0, sightings.last().1)
    }
}

/// What is known of some items, one entry for each of them, in the order in
/// which they came up. It is no map of the standard library: those know their
/// keys by an order or a hash of which nothing can be proved for names such as
/// these, and what stands for an item here is a view of its name: of a path, how
/// its prefix is spelled does not count.
pub struct ItemMap<K: ChangeKey, V> {
    entries: Vec<(K, V)>,
}

impl<K: ChangeKey, V> View for ItemMap<K, V> {
    type V = Map<K::Key, V>;

    closed spec fn view(&self) -> Map<K::Key, V> {
        as_map(self.entries@)
    }
}

impl<K: ChangeKey, V> ItemMap<K, V> {
    /// The entries in their order.
    pub closed spec fn listed(&self) -> Seq<(K, V)> {
        self.entries@
    }
}

proof fn lemma_as_map<K: ChangeKey, V>(entries: Seq<(K, V)>, i: int)
    requires
        distinct_keys(entries),
        0 <= i < entries.len(),
    ensures
        as_map(entries).dom().contains(entries[i].0.key()),
        as_map(entries)[entries[i].0.key()] == entries[i].1,
{
    let k = entries[i].0.key();
    assert(has_key(entries, k));
    let j = position(entries, k);
    assert(entries[j].0.key() == k);
}

proof fn lemma_as_map_update<K: ChangeKey, V>(
    entries: Seq<(K, V)>,
    i: int,
    value: V,
)
    requires
        distinct_keys(entries),
        0 <= i < entries.len(),
    ensures
        distinct_keys(entries.update(i, (entries[i].0, value))),
        as_map(entries.update(i, (entries[i].0, value))) == as_map(entries).insert(
            entries[i].0.key(),
            value,
        ),
{
    let after = entries.update(i, (entries[i].0, value));
    assert(forall|j: int| 0 <= j < entries.len() ==> #[trigger] after[j].0 == entries[j].0);
    let expected = as_map(entries).insert(entries[i].0.key(), value);
    assert forall|k: K::Key| as_map(after).dom().contains(k) <==> expected.dom().contains(k) by {
        if has_key(after, k) {
            let j = position(after, k);
            assert(entries[j].0.key() == k);
        }
        if has_key(entries, k) {
            let j = position(entries, k);
            assert(after[j].0.key() == k);
        }
        lemma_as_map(after, i);
    }
    assert forall|k: K::Key| as_map(after).dom().contains(k) implies as_map(after)[k]
        == expected[k] by {
        let j = position(after, k);
        lemma_as_map(after, j);
        lemma_as_map(entries, j);
    }
    assert(as_map(after) =~= expected);
}

proof fn lemma_as_map_push<K: ChangeKey, V>(
    entries: Seq<(K, V)>,
    name: K,
    value: V,
)
    requires
        distinct_keys(entries),
        !has_key(entries, name.key()),
    ensures
        distinct_keys(entries.push((name, value))),
        as_map(entries.push((name, value))) == as_map(entries).insert(name.key(), value),
{
    let after = entries.push((name, value));
    assert(forall|j: int| 0 <= j < entries.len() ==> #[trigger] after[j] == entries[j]);
    assert(distinct_keys(after)) by {
        assert forall|i: int, j: int|
            0 <= i < after.len() && 0 <= j < after.len() && i != j implies (
        #[trigger] after[i]).0.key() != (#[trigger] after[j]).0.key() by {
            if i < entries.len() {
                assert(after[i] == entries[i]);
            }
            if j < entries.len() {
                assert(after[j] == entries[j]);
            }
        }
    }
    let expected = as_map(entries).insert(name.key(), value);
    lemma_as_map(after, entries.len() as int);
    assert forall|k: K::Key| as_map(after).dom().contains(k) <==> expected.dom().contains(k) by {
        if has_key(after, k) {
            let j = position(after, k);
            if j < entries.len() {
                assert(entries[j].0.key() == k);
            }
        }
        if has_key(entries, k) {
            let j = position(entries, k);
            assert(after[j].0.key() == k);
        }
    }
    assert forall|k: K::Key| as_map(after).dom().contains(k) implies as_map(after)[k]
        == expected[k] by {
        let j = position(after, k);
        lemma_as_map(after, j);
        if j < entries.len() {
            lemma_as_map(entries, j);
        }
    }
    assert(as_map(after) =~= expected);
}

impl<K: ChangeKey, V> ItemMap<K, V> {
    /// No two entries are about the same item.
    #[verifier::type_invariant]
    spec fn well_formed(self) -> bool {
        distinct_keys(self.entries@)
    }

    /// Nothing is known of any item.
    pub fn new() -> (r: Self)
        ensures
            r@ == Map::<K::Key, V>::empty(),
            r.listed() == Seq::<(K, V)>::empty(),
    {
        let r = ItemMap { entries: Vec::new() };
        assert(r@ =~= Map::<K::Key, V>::empty());
        r
    }

    /// The position of the entry of `name`.
    fn find(&self, name: &K) -> (r: Option<usize>)
        ensures
            match r {
                Some(i) => i < self.entries@.len() && self.entries@[i as int].0.key() == name.key(),
                None => !has_key(self.entries@, name.key()),
            },
    {
        for i in 0..self.entries.len()
            invariant
                forall|k: int|
                    0 <= k < i ==> (#[trigger] self.entries@[k]).0.key() != name.key(),
        {
            if self.entries[i].0.same_key(name) {
                return Some(i);
            }
        }
        None
    }

    /// Puts `value` in the place of whatever was known of the item `name`.
    pub fn insert(&mut self, name: K, value: V)
        ensures
            final(self)@ == old(self)@.insert(name.key(), value),
            final(self).listed() == inserted(old(self).listed(), name, value),
    {
        proof {
            use_type_invariant(&*self);
        }
        let found: Option<usize> = self.find(&name);
        let mut entries: Vec<(K, V)> = Vec::new();
        std::mem::swap(&mut entries, &mut self.entries);
        match found {
            Some(i) => {
                proof {
                    lemma_as_map_update(entries@, i as int, value);
                    assert(position(entries@, name.key()) == i);
                }
                entries[i].1 = value;
            },
            None => {
                proof {
                    lemma_as_map_push(entries@, name, value);
                }
                entries.push((name, value));
            },
        }
        self.entries = entries;
    }

    /// What is known of the item `name`.
    pub fn get(&self, name: &K) -> (r: Option<&V>)
        ensures
            match r {
                Some(value) => self@.dom().contains(name.key()) && self@[name.key()] == *value,
                None => !self@.dom().contains(name.key()),
            },
    {
        proof {
            use_type_invariant(self);
        }
        match self.find(name) {
            Some(i) => {
                proof {
                    lemma_as_map(self.entries@, i as int);
                }
                Some(&self.entries[i].1)
            },
            None => None,
        }
    }

    /// The entries themselves.
    pub fn entries(&self) -> (r: &Vec<(K, V)>)
        ensures
            r@ == self.listed(),
            distinct_keys(r@),
            as_map(r@) == self@,
    {
        proof {
            use_type_invariant(self);
        }
        &self.entries
    }
}

/// The changes seen so far of each item.
pub type ChangeMap<K> = ItemMap<K, ItemMetadata>;

impl<K: ChangeKey> ItemMap<K, ItemMetadata> {
    /// Notes that `meta` was seen of the item `name`.
    pub fn record(&mut self, name: K, meta: &ItemMetadata)
        ensures
            final(self)@ == sighted(old(self)@, name.key(), *meta),
            final(self).listed() == inserted(
                old(self).listed(),
                name,
                sighted(old(self)@, name.key(), *meta)[name.key()],
            ),
    {
        let mut seen: ItemMetadata = match self.get(&name) {
            Some(before) => *before,
            None => ItemMetadata::default(),
        };
        seen.merge(meta);
        self.insert(name, seen);
    }
}

/// Lists `changes` under other names, one for each of their entries. Entries
/// whose new names stand for the same item are joined.
pub fn regroup<K: ChangeKey, P: ChangeKey>(changes: &ChangeMap<K>, names: Vec<P>) -> (r: ChangeMap<P>)
    requires
        names@.len() == changes.listed().len(),
    ensures
        r@ == gathered(keyed(with_names(changes.listed(), names@))),
        r.listed() == recorded(with_names(changes.listed(), names@)),
{
    let ghost pairs = with_names(changes.listed(), names@);
    let entries: &Vec<(K, ItemMetadata)> = changes.entries();
    let mut result: ChangeMap<P> = ItemMap::new();
    let mut at: usize = 0;
    assert(keyed(pairs.take(0)) =~= Seq::empty());
    assert(pairs.take(0) =~= Seq::empty());
    for name in it: names
        invariant
            it.seq() == names@,
            entries@ == changes.listed(),
            names@.len() == entries@.len(),
            pairs == with_names(changes.listed(), names@),
            at == it.index(),
            result@ == gathered(keyed(pairs.take(it.index()))),
            result.listed() == recorded(pairs.take(it.index())),
    {
        proof {
            use_type_invariant(&result);
            let index = it.index();
            assert(pairs.take(index + 1).drop_last() =~= pairs.take(index));
            assert(pairs.take(index + 1).last() == (name, entries@[index].1));
            assert(keyed(pairs.take(index + 1)).drop_last() =~= keyed(pairs.take(index)));
            assert(keyed(pairs.take(index + 1)).last() == (name.key(), entries@[index].1));
        }
        assert(at < entries.len());
        result.record(name, &entries[at].1);
        at = at + 1;
    }
    assert(pairs.take(pairs.len() as int) =~= pairs);
    result
}

proof fn lemma_inserted_names<K: ChangeKey, V>(entries: Seq<(K, V)>, name: K, value: V, e: int)
    requires
        0 <= e < inserted(entries, name, value).len(),
    ensures
        inserted(entries, name, value)[e].0 == name || (e < entries.len() && inserted(
            entries,
            name,
            value,
        )[e].0 == entries[e].0),
{
    if has_key(entries, name.key()) {
        let at = position(entries, name.key());
        assert(0 <= at < entries.len());
    }
}

/// What was inserted is listed under a name that it was inserted with.
pub proof fn inserted_names_are_kept<K: ChangeKey, V>(pairs: Seq<(K, V)>, e: int) -> (k: int)
    requires
        0 <= e < inserted_all(pairs).len(),
    ensures
        0 <= k < pairs.len(),
        inserted_all(pairs)[e].0 == pairs[k].0,
    decreases pairs.len(),
{
    let front = pairs.drop_last();
    lemma_inserted_names(inserted_all(front), pairs.last().0, pairs.last().1, e);
    if inserted_all(pairs)[e].0 == pairs.last().0 {
        pairs.len() - 1
    } else {
        inserted_names_are_kept(front, e)
    }
}

/// What was recorded is listed under a name that it was recorded with.
pub proof fn recorded_names_are_kept<K: ChangeKey>(
    sightings: Seq<(K, ItemMetadata)>,
    e: int,
) -> (k: int)
    requires
        0 <= e < recorded(sightings).len(),
    ensures
        0 <= k < sightings.len(),
        recorded(sightings)[e].0 == sightings[k].0,
    decreases sightings.len(),
{
    let front = recorded(sightings.drop_last());
    let (name, meta) = sightings.last();
    lemma_inserted_names(front, name, merged(known(front, name.key()), meta), e);
    if recorded(sightings)[e].0 == name {
        sightings.len() - 1
    } else {
        recorded_names_are_kept(sightings.drop_last(), e)
    }
}

/// The change `action` is noted in `meta`.
spec fn has_change(meta: ItemMetadata, action: ItemAction) -> bool {
    match action {
        ItemAction::Create => meta.created,
        ItemAction::Modify => meta.modified,
        ItemAction::Delete => meta.deleted,
        ItemAction::Rename => meta.renamed,
    }
}

/// Some sighting is of `k`.
spec fn is_seen<Key>(sightings: Seq<(Key, ItemMetadata)>, k: Key) -> bool {
    exists|i: int| 0 <= i < sightings.len() && (#[trigger] sightings[i]).0 == k
}

/// Some sighting of `k` tells of the change `action`.
spec fn is_told<Key>(sightings: Seq<(Key, ItemMetadata)>, k: Key, action: ItemAction) -> bool {
    exists|i: int|
        0 <= i < sightings.len() && (#[trigger] sightings[i]).0 == k && has_change(
            sightings[i].1,
            action,
        )
}

proof fn lemma_gathered<Key>(sightings: Seq<(Key, ItemMetadata)>, k: Key, action: ItemAction)
    ensures
        gathered(sightings).dom().contains(k) <==> is_seen(sightings, k),
        gathered(sightings).dom().contains(k) ==> (has_change(gathered(sightings)[k], action)
            <==> is_told(sightings, k, action)),
{
    gathered_is_the_union_of_sightings(sightings, k);
}

proof fn lemma_regrouped<K: ChangeKey, P: ChangeKey>(
    sightings: Seq<(K::Key, ItemMetadata)>,
    entries: Seq<(K, ItemMetadata)>,
    names: Seq<P>,
    name_of: spec_fn(K::Key) -> P::Key,
    k: P::Key,
    action: ItemAction,
)
    requires
        distinct_keys(entries),
        as_map(entries) == gathered(sightings),
        names.len() == entries.len(),
        forall|i: int|
            0 <= i < names.len() ==> (#[trigger] names[i]).key() == name_of(entries[i].0.key()),
    ensures
        ({
            let regrouped = keyed(with_names(entries, names));
            let anew = sightings.map_values(|s: (K::Key, ItemMetadata)| (name_of(s.0), s.1));
            &&& is_seen(regrouped, k) == is_seen(anew, k)
            &&& is_told(regrouped, k, action) == is_told(anew, k, action)
        }),
{
    let regrouped = keyed(with_names(entries, names));
    let anew = sightings.map_values(|s: (K::Key, ItemMetadata)| (name_of(s.0), s.1));
    assert forall|j: int| 0 <= j < anew.len() && (#[trigger] anew[j]).0 == k implies is_seen(
        regrouped,
        k,
    ) && (has_change(anew[j].1, action) ==> is_told(regrouped, k, action)) by {
        let key = sightings[j].0;
        lemma_gathered(sightings, key, action);
        let i = position(entries, key);
        assert(has_key(entries, key));
        lemma_as_map(entries, i);
        assert(regrouped[i] == (names[i].key(), entries[i].1));
    }
    assert forall|i: int| 0 <= i < regrouped.len() && (#[trigger] regrouped[i]).0
        == k implies is_seen(anew, k) && (has_change(regrouped[i].1, action) ==> is_told(
        anew,
        k,
        action,
    )) by {
        let key = entries[i].0.key();
        assert(regrouped[i] == (names[i].key(), entries[i].1));
        lemma_as_map(entries, i);
        lemma_gathered(sightings, key, action);
        let j = choose|j: int| 0 <= j < sightings.len() && (#[trigger] sightings[j]).0 == key;
        assert(anew[j].0 == k);
        if has_change(regrouped[i].1, action) {
            let j = choose|j: int|
                0 <= j < sightings.len() && (#[trigger] sightings[j]).0 == key && has_change(
                    sightings[j].1,
                    action,
                );
            assert(anew[j].0 == k);
        }
    }
}

/// Listing gathered changes under other names is the same as gathering the
/// sightings under those names in the first place.
pub proof fn regrouping_is_gathering_anew<K: ChangeKey, P: ChangeKey>(
    sightings: Seq<(K::Key, ItemMetadata)>,
    entries: Seq<(K, ItemMetadata)>,
    names: Seq<P>,
    name_of: spec_fn(K::Key) -> P::Key,
)
    requires
        distinct_keys(entries),
        as_map(entries) == gathered(sightings),
        names.len() == entries.len(),
        forall|i: int|
            0 <= i < names.len() ==> (#[trigger] names[i]).key() == name_of(entries[i].0.key()),
    ensures
        gathered(keyed(with_names(entries, names))) == gathered(
            sightings.map_values(|s: (K::Key, ItemMetadata)| (name_of(s.0), s.1)),
        ),
{
    let regrouped = keyed(with_names(entries, names));
    let anew = sightings.map_values(|s: (K::Key, ItemMetadata)| (name_of(s.0), s.1));
    assert forall|k: P::Key, action: ItemAction|
        #![trigger is_told(regrouped, k, action)]
        is_seen(regrouped, k) == is_seen(anew, k) && is_told(regrouped, k, action) == is_told(
            anew,
            k,
            action,
        ) by {
        lemma_regrouped(sightings, entries, names, name_of, k, action);
    }
    assert forall|k: P::Key|
        #![trigger gathered(regrouped).dom().contains(k)]
        #![trigger gathered(anew).dom().contains(k)]
        gathered(regrouped).dom().contains(k) == gathered(anew).dom().contains(k) && (gathered(
            anew,
        ).dom().contains(k) ==> gathered(regrouped)[k] == gathered(anew)[k]) by {
        lemma_gathered(regrouped, k, ItemAction::Create);
        lemma_gathered(regrouped, k, ItemAction::Modify);
        lemma_gathered(regrouped, k, ItemAction::Delete);
        lemma_gathered(regrouped, k, ItemAction::Rename);
        lemma_gathered(anew, k, ItemAction::Create);
        lemma_gathered(anew, k, ItemAction::Modify);
        lemma_gathered(anew, k, ItemAction::Delete);
        lemma_gathered(anew, k, ItemAction::Rename);
        assert(is_told(regrouped, k, ItemAction::Create) == is_told(anew, k, ItemAction::Create));
    }
    assert(gathered(regrouped) =~= gathered(anew));
}

/// What is known of an item is what its sightings say together: it is known
/// exactly if it was seen, and a change is noted of it exactly if one of the
/// sightings reports that change. The order of the sightings does not matter.
pub proof fn gathered_is_the_union_of_sightings<Key>(
    sightings: Seq<(Key, ItemMetadata)>,
    k: Key,
)
    ensures
        gathered(sightings).dom().contains(k) <==> exists|i: int|
            0 <= i < sightings.len() && (#[trigger] sightings[i]).0 == k,
        gathered(sightings).dom().contains(k) ==> {
            let meta = gathered(sightings)[k];
            &&& meta.created <==> exists|i: int|
                0 <= i < sightings.len() && (#[trigger] sightings[i]).0 == k
                    && sightings[i].1.created
            &&& meta.modified <==> exists|i: int|
                0 <= i < sightings.len() && (#[trigger] sightings[i]).0 == k
                    && sightings[i].1.modified
            &&& meta.deleted <==> exists|i: int|
                0 <= i < sightings.len() && (#[trigger] sightings[i]).0 == k
                    && sightings[i].1.deleted
            &&& meta.renamed <==> exists|i: int|
                0 <= i < sightings.len() && (#[trigger] sightings[i]).0 == k
                    && sightings[i].1.renamed
        },
    decreases sightings.len(),
{
    if sightings.len() > 0 {
        let front = sightings.drop_last();
        gathered_is_the_union_of_sightings(front, k);
        assert(forall|i: int| 0 <= i < front.len() ==> #[trigger] front[i] == sightings[i]);
        let last = sightings.len() - 1;
        assert(sightings[last] == sightings.last());
        assert forall|i: int| 0 <= i < sightings.len() implies i == last || (#[trigger] sightings[i]
            == front[i] && 0 <= i < front.len()) by {}
    }
}

} // verus!
