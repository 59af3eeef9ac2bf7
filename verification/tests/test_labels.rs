use nexwick::model::compact_tree_builder::CompactTreeBuilder;
use nexwick::model::label_resolver::LabelResolver;
use nexwick::model::label_storage::LabelStorage;
use nexwick::model::leaf_label_map::LeafLabelMap;
use nexwick::model::simple_tree_builder::SimpleLabelStorage;
use nexwick::model::translation::Translation;
use nexwick::model::tree_builder::TreeBuilder;

fn taxa() -> LeafLabelMap {
    let mut map = LeafLabelMap::new(3);
    map.insert("alpha".to_string());
    map.insert("beta".to_string());
    map.insert("2".to_string());
    map
}

fn table(pairs: &[(&str, &str)]) -> Translation {
    let mut t = Translation::new();
    for (key, label) in pairs {
        t.insert(key.to_string(), label.to_string());
    }
    t
}

#[test]
fn table_key_decides_before_position_and_label() {
    // "2" is a key, a position and a taxon label at once; "beta" is a key and a label
    let translation = table(&[("2", "alpha"), ("beta", "2"), ("x", "beta")]);
    let mut resolver = LabelResolver::new_nexus_labels_resolver(translation, taxa());
    assert_eq!(resolver.resolve_label("2").unwrap(), 0);
    assert_eq!(resolver.resolve_label("beta").unwrap(), 2);
    assert_eq!(resolver.resolve_label("x").unwrap(), 1);
    // no key: position counted from one
    assert_eq!(resolver.resolve_label("1").unwrap(), 0);
    assert_eq!(resolver.resolve_label("3").unwrap(), 2);
    // no key, no number: taxon label
    assert_eq!(resolver.resolve_label("alpha").unwrap(), 0);
    let error = resolver.resolve_label("4").err().unwrap();
    assert_eq!(error.message(), "Label index 4 out of bounds (1-based indexing, valid range: 1-3)");
    let error = resolver.resolve_label("0").err().unwrap();
    assert_eq!(error.message(), "Label index 0 out of bounds (1-based indexing, valid range: 1-3)");
    let error = resolver.resolve_label("gamma").err().unwrap();
    assert_eq!(error.message(), "Resolver could not resolve gamma");
    assert_eq!(resolver.into_label_storage().num_labels(), 3);
}

#[test]
fn array_resolver_reads_numbers_only() {
    let translation = table(&[("3", "alpha"), ("1", "beta"), ("2", "2")]);
    assert!(LabelResolver::<LeafLabelMap>::integer_table(&translation, &taxa()).is_some());
    let mut resolver = LabelResolver::new_nexus_integer_labels_resolver(translation, taxa());
    assert_eq!(resolver.resolve_label("3").unwrap(), 0);
    assert_eq!(resolver.resolve_label("1").unwrap(), 1);
    assert_eq!(resolver.resolve_label("+2").unwrap(), 2);
    assert_eq!(
        resolver.resolve_label("alpha").err().unwrap().message(),
        "Resolver requires integer labels, got 'alpha'"
    );
    assert_eq!(
        resolver.resolve_label("7").err().unwrap().message(),
        "Label index 7 out of bounds (1-based indexing, valid range: 1-3)"
    );
}

#[test]
fn tables_that_do_not_fit_are_refused() {
    let map = taxa();
    // a position named twice, one missing
    assert!(LabelResolver::<LeafLabelMap>::integer_table(&table(&[("1", "alpha"), ("01", "beta"), ("2", "2")]), &map).is_none());
    // a key out of range
    assert!(LabelResolver::<LeafLabelMap>::integer_table(&table(&[("1", "alpha"), ("2", "beta"), ("4", "2")]), &map).is_none());
    // a label that is no taxon
    assert!(LabelResolver::<LeafLabelMap>::label_table(&table(&[("a", "alpha"), ("b", "delta")]), &map).is_none());
    assert!(LabelResolver::<LeafLabelMap>::label_table(&table(&[("a", "alpha"), ("b", "beta")]), &map).is_some());
    assert!(map.check_consistency_with_translation(&table(&[("a", "alpha"), ("b", "beta"), ("c", "2")])));
    assert!(!map.check_consistency_with_translation(&table(&[("a", "alpha"), ("b", "beta")])));
    assert!(!map.check_consistency_with_translation(&table(&[("a", "alpha"), ("b", "beta"), ("c", "3")])));
}

#[test]
fn verbatim_resolver_stores_what_it_meets() {
    let mut resolver = LabelResolver::new_verbatim_labels_resolver(LeafLabelMap::new(2));
    assert_eq!(resolver.resolve_label("b").unwrap(), 0);
    assert_eq!(resolver.resolve_label("a").unwrap(), 1);
    assert_eq!(resolver.resolve_label("b").unwrap(), 0);
    assert_eq!(resolver.label_storage().num_labels(), 2);
    let mut simple = LabelResolver::new_verbatim_labels_resolver(SimpleLabelStorage::new());
    assert_eq!(simple.resolve_label("b").unwrap(), "b");
    assert_eq!(simple.label_storage().check_and_ref("b"), Some("b".to_string()));
    assert_eq!(simple.label_storage().check_and_ref("c"), None);
    assert_eq!(simple.label_storage().index_to_ref(0), "b");
}

#[test]
fn translation_replaces_what_a_key_stands_for() {
    let mut t = Translation::new();
    t.insert("1".to_string(), "a".to_string());
    t.insert("2".to_string(), "b".to_string());
    t.insert("1".to_string(), "c".to_string());
    assert_eq!(t.len(), 2);
    assert_eq!(t.get("1").unwrap(), "c");
    assert_eq!(t.key_at(1), "2");
    assert_eq!(t.label_at(1), "b");
    assert!(t.get("3").is_none());
}

#[test]
fn label_map_with_repeated_labels() {
    let mut map = LeafLabelMap::new(2);
    map.insert("a".to_string());
    map.insert("b".to_string());
    assert!(map.is_full());
    map.insert("a".to_string());
    assert!(map.is_full());
    assert_eq!(map.num_labels(), 3);
    assert_eq!(map.get_index("a"), Some(2));
    assert_eq!(map.get_or_insert("a"), 2);
    assert_eq!(map.labels().len(), 3);
    assert_eq!(map.index_to_ref(1), 1);
    assert_eq!(map.check_and_ref("zz"), None);
    assert!(!LeafLabelMap::new(1).is_full());
}

#[test]
fn a_map_is_made_for_the_number_of_labels_asked_for() {
    let mut map = <LeafLabelMap as LabelStorage>::with_capacity(2);
    assert_eq!(map.num_labels(), 0);
    assert!(!map.is_full());
    map.store_and_ref("a");
    assert!(!map.is_full());
    map.store_and_ref("b");
    assert!(map.is_full());
    let mut one = CompactTreeBuilder::create_storage(1);
    one.store_and_ref("a");
    assert!(one.is_full());
    assert!(<LeafLabelMap as LabelStorage>::with_capacity(0).is_full());
}
