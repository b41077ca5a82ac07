use eager_loading::Cache;
use eager_loading::DynamicCache;

const TAG_A: u64 = 1;
const TAG_B: u64 = 2;

#[derive(Debug, Clone, PartialEq, Eq)]
enum Value {
    Int(i32),
    Text(String),
}

#[test]
fn test_dynamic_cache() {
    let mut cache = DynamicCache::<&'static str, Value>::new();

    cache.insert(TAG_A, "key", Value::Int(123));
    cache.insert(TAG_B, "key", Value::Text("bool value".to_string()));

    assert_eq!(Some(&Value::Int(123)), cache.get(TAG_A, "key"));
    assert_eq!(Some(&Value::Text("bool value".to_string())), cache.get(TAG_B, "key"));
}

#[test]
fn dynamic_cache_insert_overwrites() {
    let mut cache = DynamicCache::<u64, u64>::new();
    cache.insert(TAG_A, 7, 10);
    cache.insert(TAG_A, 7, 20);
    assert_eq!(Some(&20), cache.get(TAG_A, 7));
    assert_eq!(None, cache.get(TAG_A, 8));
    assert_eq!(None, cache.get(TAG_B, 7));
}

#[test]
fn cache_hit_miss_accounting() {
    let mut cache = Cache::<u64, u64>::new();
    assert_eq!(0, cache.hits());
    assert_eq!(0, cache.misses());

    cache.insert(TAG_A, 1, 11);
    // an insert never moves the counters
    assert_eq!(0, cache.hits());
    assert_eq!(0, cache.misses());

    assert_eq!(Some(&11), cache.get(TAG_A, 1));
    assert_eq!(1, cache.hits());
    assert_eq!(0, cache.misses());

    assert_eq!(None, cache.get(TAG_A, 2));
    assert_eq!(1, cache.hits());
    assert_eq!(1, cache.misses());

    assert_eq!(Some(&11), cache.get(TAG_A, 1));
    assert_eq!(2, cache.hits());
    assert_eq!(1, cache.misses());
}

#[test]
fn disabled_cache_is_noop() {
    let mut cache = Cache::<u64, u64>::disabled();
    cache.insert(TAG_A, 1, 11);
    cache.insert(TAG_B, 2, 22);
    assert_eq!(None, cache.get(TAG_A, 1));
    assert_eq!(None, cache.get(TAG_B, 2));
    assert_eq!(0, cache.hits());
    assert_eq!(0, cache.misses());
}

#[test]
fn default_cache_is_disabled() {
    let mut cache = Cache::<u64, u64>::default();
    cache.insert(TAG_A, 1, 11);
    assert_eq!(None, cache.get(TAG_A, 1));
    assert_eq!(0, cache.hits());
    assert_eq!(0, cache.misses());
}

#[test]
fn type_isolation_between_tags() {
    let mut cache = Cache::<&'static str, Value>::new();
    cache.insert(TAG_A, "k", Value::Int(123));
    cache.insert(TAG_B, "k", Value::Text("hello".to_string()));
    assert_eq!(Some(&Value::Int(123)), cache.get(TAG_A, "k"));
    assert_eq!(Some(&Value::Text("hello".to_string())), cache.get(TAG_B, "k"));
    assert_eq!(2, cache.hits());
    assert_eq!(0, cache.misses());
}
