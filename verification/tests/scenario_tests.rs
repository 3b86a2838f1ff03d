use pywr_core::scenario::ScenarioGroupCollection;

#[test]
fn cross_product_has_full_cardinality() {
    let mut collection = ScenarioGroupCollection { groups: Vec::new() };
    collection.add_group("climate", 2);
    collection.add_group("demand", 3);
    collection.add_group("inflow", 4);
    let indices = collection.scenario_indices();
    assert_eq!(indices.len(), 24);
    for (i, idx) in indices.iter().enumerate() {
        assert_eq!(idx.index, i);
        assert_eq!(idx.indices.len(), 3);
        assert!(idx.indices[0] < 2);
        assert!(idx.indices[1] < 3);
        assert!(idx.indices[2] < 4);
        // The ordinal round-trips through the mixed-radix coordinates,
        // last group fastest.
        let encoded = (idx.indices[0] * 3 + idx.indices[1]) * 4 + idx.indices[2];
        assert_eq!(encoded, i);
    }
    // All coordinate vectors are distinct.
    for i in 0..indices.len() {
        for j in 0..i {
            assert_ne!(indices[i].indices, indices[j].indices);
        }
    }
}

#[test]
fn empty_collection_has_one_scenario() {
    let collection = ScenarioGroupCollection { groups: Vec::new() };
    let indices = collection.scenario_indices();
    assert_eq!(indices.len(), 1);
    assert_eq!(indices[0].index, 0);
    assert_eq!(indices[0].indices.len(), 0);
}

#[test]
fn group_lookup_by_name() {
    let mut collection = ScenarioGroupCollection { groups: Vec::new() };
    collection.add_group("first", 5);
    collection.add_group("second", 7);
    assert_eq!(collection.get_group_index_by_name("second").unwrap(), 1);
    assert_eq!(collection.get_group_by_name("first").unwrap().size(), 5);
    assert!(collection.get_group_index_by_name("absent").is_err());
}

#[test]
fn duplicate_group_names_resolve_to_the_first() {
    let mut collection = ScenarioGroupCollection { groups: Vec::new() };
    collection.add_group("twin", 3);
    collection.add_group("twin", 9);
    assert_eq!(collection.get_group_index_by_name("twin").unwrap(), 0);
    assert_eq!(collection.get_group_by_name("twin").unwrap().size(), 3);
}
