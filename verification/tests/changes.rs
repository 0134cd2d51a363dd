use dynstaller::changes::{ChangeMap, ItemMap};
use dynstaller::item::{ItemAction, ItemMetadata};

fn created() -> ItemMetadata {
    ItemMetadata::default().create(true)
}

fn deleted() -> ItemMetadata {
    ItemMetadata::default().delete(true)
}

#[test]
fn a_new_item_is_untouched() {
    let meta = ItemMetadata::default();
    assert!(meta.is_empty());
    assert!(!meta.created && !meta.modified && !meta.deleted && !meta.renamed);
}

#[test]
fn each_setter_sets_its_own_change() {
    let meta = ItemMetadata::default();
    assert!(meta.create(true).created);
    assert!(meta.modify(true).modified);
    assert!(meta.delete(true).deleted);
    assert!(meta.rename(true).renamed);
    assert!(meta.create(true).create(false).is_empty());
    assert!(!meta.rename(true).is_empty());
    assert!(!meta.modify(true).created);
}

#[test]
fn merging_is_a_union_of_changes() {
    let mut a = created();
    a.merge(&deleted());
    assert!(a.created && a.deleted && !a.modified && !a.renamed);
    let mut b = deleted();
    b.merge(&created());
    assert!(a == b);
    let mut c = a;
    c.merge(&a);
    assert!(c == a);
}

#[test]
fn merging_keeps_what_was_known() {
    let mut a = created();
    a.merge(&ItemMetadata::default());
    assert!(a == created());
}

#[test]
fn actions_become_single_changes() {
    assert!(ItemMetadata::from(ItemAction::Create) == created());
    assert!(ItemMetadata::from(ItemAction::Modify) == ItemMetadata::default().modify(true));
    assert!(ItemMetadata::from(ItemAction::Delete) == deleted());
    assert!(ItemMetadata::from(ItemAction::Rename) == ItemMetadata::default().rename(true));
}

#[test]
fn sightings_of_an_item_are_joined() {
    let mut changes: ChangeMap<String> = ItemMap::new();
    changes.record("a".to_string(), &created());
    changes.record("b".to_string(), &deleted());
    changes.record("a".to_string(), &deleted());
    assert_eq!(changes.entries().len(), 2);
    assert!(*changes.get(&"a".to_string()).unwrap() == created().delete(true));
    assert!(*changes.get(&"b".to_string()).unwrap() == deleted());
    assert!(changes.get(&"c".to_string()).is_none());
}

#[test]
fn the_order_of_sightings_does_not_matter() {
    let mut one: ChangeMap<Vec<u16>> = ItemMap::new();
    one.record(vec![1], &created());
    one.record(vec![1], &deleted());
    let mut other: ChangeMap<Vec<u16>> = ItemMap::new();
    other.record(vec![1], &deleted());
    other.record(vec![1], &created());
    assert!(*one.get(&vec![1]).unwrap() == *other.get(&vec![1]).unwrap());
}

#[test]
fn an_inserted_item_replaces_the_one_before() {
    let mut changes: ChangeMap<String> = ItemMap::new();
    changes.insert("a".to_string(), created());
    changes.insert("a".to_string(), deleted());
    assert_eq!(changes.entries().len(), 1);
    assert!(*changes.get(&"a".to_string()).unwrap() == deleted());
}

#[test]
fn names_that_differ_are_different_items() {
    let mut changes: ChangeMap<String> = ItemMap::new();
    changes.record("a".to_string(), &created());
    changes.record("A".to_string(), &deleted());
    assert_eq!(changes.entries().len(), 2);
}
