use eager_loading::load::split_load_results;
use eager_loading::sample::Country;
use eager_loading::sample::CountryTrail;
use eager_loading::sample::MemoryStore;
use eager_loading::sample::StoreError;
use eager_loading::sample::TravelerNode;
use eager_loading::sample::User;
use eager_loading::sample::UserNode;
use eager_loading::sample::COUNTRY_TAG;
use eager_loading::Cache;
use eager_loading::DbEdge;
use eager_loading::EagerLoadAllChildren;
use eager_loading::EagerLoadChildrenOfType;
use eager_loading::Error;
use eager_loading::GraphqlNodeForModel;
use eager_loading::LoadFromIds;
use eager_loading::LoadResult;
use eager_loading::OptionDbEdge;
use eager_loading::VecDbEdge;

fn store(ids: &[u64]) -> MemoryStore {
    MemoryStore {
        countries: ids.iter().map(|id| Country { id: *id }).collect(),
        available: true,
    }
}

#[test]
fn db_edge_starts_not_loaded() {
    let e: DbEdge<u64> = DbEdge::default();
    assert_eq!(Err(Error::NotLoaded), e.try_unwrap());
}

#[test]
fn db_edge_records_found_value() {
    let mut e: DbEdge<u64> = DbEdge::default();
    e.loaded_or_failed(Some(7));
    assert_eq!(Ok(&7), e.try_unwrap());
}

#[test]
fn db_edge_records_failure_on_absence() {
    let mut e: DbEdge<u64> = DbEdge::default();
    e.loaded_or_failed(None);
    assert_eq!(Err(Error::LoadFailed), e.try_unwrap());
}

#[test]
fn option_db_edge_absence_is_not_failure() {
    let mut e: OptionDbEdge<u64> = OptionDbEdge::default();
    assert_eq!(Err(Error::NotLoaded), e.try_unwrap());
    e.loaded_or_failed(None);
    assert_eq!(Ok(&None), e.try_unwrap());
    e.loaded_or_failed(Some(3));
    assert_eq!(Ok(&Some(3)), e.try_unwrap());
}

#[test]
fn vec_db_edge_accumulates_and_skips_absent() {
    let mut e: VecDbEdge<u64> = VecDbEdge::default();
    assert_eq!(Err(Error::NotLoaded), e.try_unwrap());
    e.loaded_or_failed(Some(1));
    e.loaded_or_failed(None);
    e.loaded_or_failed(Some(2));
    assert_eq!(Ok(&vec![1, 2]), e.try_unwrap());
}

#[test]
fn vec_db_edge_absence_loads_empty() {
    let mut e: VecDbEdge<u64> = VecDbEdge::default();
    e.loaded_or_failed(None);
    assert_eq!(Ok(&Vec::new()), e.try_unwrap());
}

#[test]
fn from_db_models_keeps_order() {
    let users = vec![
        User { id: 1, country_id: 10 },
        User { id: 2, country_id: 20 },
    ];
    let nodes = UserNode::from_db_models(&users);
    assert_eq!(2, nodes.len());
    assert_eq!(1, nodes[0].user.id);
    assert_eq!(2, nodes[1].user.id);
    assert!(matches!(nodes[0].country, DbEdge::NotLoaded));
    assert!(matches!(nodes[1].country, DbEdge::NotLoaded));
}

#[test]
fn batch_dedup_requests_each_missing_id_once() {
    // three parents project the child ids [7, 7, 9]; with an empty cache the
    // batch to fetch is exactly [7, 9]
    let ids = vec![7u64, 7, 9];
    let mut cache = Cache::<u64, Country>::new();
    let results = UserNode::load_from_cache(&ids, &mut cache);
    assert_eq!(3, results.len());
    assert!(results.iter().all(|r| matches!(r, LoadResult::Missing(_))));
    let (models, to_load) = split_load_results(results);
    assert!(models.is_empty());
    assert_eq!(vec![7u64, 9], to_load);
    assert_eq!(0, cache.hits());
    assert_eq!(3, cache.misses());
}

#[test]
fn split_keeps_loaded_and_dedups_missing() {
    let results: Vec<LoadResult<Country, u64>> = vec![
        LoadResult::Missing(7),
        LoadResult::Loaded(Country { id: 3 }),
        LoadResult::Missing(7),
        LoadResult::Missing(9),
        LoadResult::Loaded(Country { id: 4 }),
    ];
    let (models, to_load) = split_load_results(results);
    assert_eq!(vec![Country { id: 3 }, Country { id: 4 }], models);
    assert_eq!(vec![7u64, 9], to_load);
}

#[test]
fn load_returns_first_row_per_requested_id() {
    let db = store(&[1, 2]);
    let loaded = Country::load(&vec![2, 1, 1], &db).expect("the store is available");
    assert_eq!(
        vec![Country { id: 2 }, Country { id: 1 }, Country { id: 1 }],
        loaded
    );
    let unavailable = MemoryStore { countries: Vec::new(), available: false };
    assert_eq!(Err(StoreError), Country::load(&vec![1], &unavailable));
}

#[test]
fn missing_child_fails_required_edge() {
    // 2 parents with child ids [1, 2], empty cache, the store only holds
    // country 1: parent 1 loads, parent 2's required edge fails
    let users = vec![
        User { id: 1, country_id: 1 },
        User { id: 2, country_id: 2 },
    ];
    let mut nodes = UserNode::from_db_models(&users);
    let db = store(&[1]);
    let mut cache = Cache::new();
    let r = UserNode::eager_load_all_children_for_each(
        &mut nodes,
        &users,
        &db,
        &CountryTrail,
        &mut cache,
    );
    assert_eq!(Ok(()), r);
    let loaded = nodes[0].country.try_unwrap().expect("parent 1 should be loaded");
    assert_eq!(1, loaded.country.id);
    assert!(matches!(nodes[1].country, DbEdge::LoadFailed));
}

#[test]
fn cached_child_is_not_fetched_again() {
    // same two parents, but country 2 is already cached: it is pulled from
    // the cache even though the store has no such row, and the store is only
    // asked for id 1
    let users = vec![
        User { id: 1, country_id: 1 },
        User { id: 2, country_id: 2 },
    ];
    let mut nodes = UserNode::from_db_models(&users);
    let db = store(&[1]);
    let mut cache = Cache::new();
    cache.insert(COUNTRY_TAG, 2, Country { id: 2 });
    let r = UserNode::eager_load_all_children_for_each(
        &mut nodes,
        &users,
        &db,
        &CountryTrail,
        &mut cache,
    );
    assert_eq!(Ok(()), r);
    let first = nodes[0].country.try_unwrap().expect("parent 1 should be loaded");
    assert_eq!(1, first.country.id);
    let second = nodes[1].country.try_unwrap().expect("parent 2 should come from the cache");
    assert_eq!(2, second.country.id);
    assert_eq!(1, cache.hits());
    assert_eq!(1, cache.misses());
}

#[test]
fn missing_child_leaves_optional_edge_empty() {
    // same shape as the required-edge scenario, but on an optional edge the
    // absent country comes back as loaded-with-nothing, not as a failure
    let users = vec![
        User { id: 1, country_id: 1 },
        User { id: 2, country_id: 2 },
    ];
    let mut nodes = TravelerNode::from_db_models(&users);
    let db = store(&[1]);
    let mut cache = Cache::new();
    let r = TravelerNode::eager_load_all_children_for_each(
        &mut nodes,
        &users,
        &db,
        &CountryTrail,
        &mut cache,
    );
    assert_eq!(Ok(()), r);
    let first = nodes[0].country.try_unwrap().expect("traveler 1 should be loaded");
    assert_eq!(1, first.as_ref().expect("traveler 1 has a country").country.id);
    let second = nodes[1].country.try_unwrap().expect("traveler 2 should still be loaded");
    assert!(second.is_none());
}

#[test]
fn no_edge_stays_unloaded_after_success() {
    let users = vec![
        User { id: 1, country_id: 5 },
        User { id: 2, country_id: 6 },
        User { id: 3, country_id: 5 },
    ];
    let mut nodes = UserNode::from_db_models(&users);
    let db = store(&[5, 6]);
    let mut cache = Cache::new();
    let r = UserNode::eager_load_all_children_for_each(
        &mut nodes,
        &users,
        &db,
        &CountryTrail,
        &mut cache,
    );
    assert_eq!(Ok(()), r);
    for node in &nodes {
        assert!(!matches!(node.country, DbEdge::NotLoaded));
    }
}

#[test]
fn store_error_propagates_and_leaves_nodes_untouched() {
    let users = vec![User { id: 1, country_id: 1 }];
    let mut nodes = UserNode::from_db_models(&users);
    let db = MemoryStore { countries: Vec::new(), available: false };
    let mut cache = Cache::new();
    let r = UserNode::eager_load_all_children_for_each(
        &mut nodes,
        &users,
        &db,
        &CountryTrail,
        &mut cache,
    );
    assert_eq!(Err(StoreError), r);
    assert!(matches!(nodes[0].country, DbEdge::NotLoaded));
}

#[test]
fn disabled_cache_gives_same_results() {
    let users = vec![
        User { id: 1, country_id: 1 },
        User { id: 2, country_id: 2 },
    ];
    let mut nodes = UserNode::from_db_models(&users);
    let db = store(&[1]);
    let r = UserNode::eager_load_all_children_for_each_without_cache(
        &mut nodes,
        &users,
        &db,
        &CountryTrail,
    );
    assert_eq!(Ok(()), r);
    let loaded = nodes[0].country.try_unwrap().expect("parent 1 should be loaded");
    assert_eq!(1, loaded.country.id);
    assert!(matches!(nodes[1].country, DbEdge::LoadFailed));
}

#[test]
fn single_node_entry_point_resolves_its_edges() {
    let user = User { id: 1, country_id: 3 };
    let node = UserNode::new_from_model(&user);
    let db = store(&[3]);
    let mut cache = Cache::new();
    let models = vec![user];
    let r = UserNode::eager_load_all_chilren(node, &models, &db, &CountryTrail, &mut cache);
    let resolved = r.expect("the load should succeed");
    let loaded = resolved.country.try_unwrap().expect("the edge should be loaded");
    assert_eq!(3, loaded.country.id);
}
