use ttl_cache::Cache;
use ttl_cache::CacheError;
use ttl_cache::Store;

const PREFIX: &str = "prefix";
const KEY: &str = "key";
const VALUE: &str = "value";

fn now_unix() -> i64 {
    time::OffsetDateTime::now_utc().unix_timestamp()
}

fn json_object(field: &str, content: &str) -> serde_json::Value {
    let mut obj = serde_json::Map::new();
    obj.insert(
        field.to_string(),
        serde_json::Value::String(content.to_string()),
    );
    serde_json::Value::Object(obj)
}

#[test]
fn ok() {
    let mut store = Store::new();
    let cache = Cache::new(PREFIX);
    cache.insert(&mut store, KEY, VALUE, 10).unwrap();

    assert_eq!(cache.get(&store, KEY).unwrap().unwrap(), VALUE);
}

#[test]
fn expiring() {
    let mut store = Store::new();
    let cache = Cache::new(PREFIX);
    cache.insert(&mut store, KEY, VALUE, -1).unwrap();

    assert_eq!(cache.get(&store, KEY).unwrap(), None);
}

#[test]
fn payload() {
    let value = json_object("name", VALUE);
    let value_json = serde_json::to_string(&value).unwrap();
    let key_json = serde_json::to_string(KEY).unwrap();

    let mut store = Store::new();
    let cache = Cache::new(PREFIX);
    let now = now_unix();
    cache
        .insert_at(&mut store, &key_json, &value_json, 10, now)
        .unwrap();

    let stored = cache.get_at(&store, &key_json, now).unwrap();
    let got: serde_json::Value = serde_json::from_str(&stored).unwrap();
    assert_eq!(
        got.get("name").unwrap(),
        &serde_json::Value::String(VALUE.to_string())
    );
}

#[test]
fn key() {
    let key_json = serde_json::to_string(&json_object("name", KEY)).unwrap();
    let value_json = serde_json::to_string(VALUE).unwrap();

    let mut store = Store::new();
    let cache = Cache::new(PREFIX);
    let now = now_unix();
    cache
        .insert_at(&mut store, &key_json, &value_json, 10, now)
        .unwrap();

    let stored = cache.get_at(&store, &key_json, now).unwrap();
    let got: String = serde_json::from_str(&stored).unwrap();
    assert_eq!(got, VALUE);
}

#[test]
fn round_trip_at_fixed_instant() {
    let mut store = Store::new();
    let cache = Cache::new(PREFIX);
    let now: i64 = 1_000_000;
    cache
        .insert_at(&mut store, "\"k\"", "\"v\"", 1, now)
        .unwrap();

    assert_eq!(cache.get_at(&store, "\"k\"", now).unwrap(), "\"v\"");
}

#[test]
fn stale_exactly_at_expiry() {
    let mut store = Store::new();
    let cache = Cache::new(PREFIX);
    let now: i64 = 1_000_000;
    cache
        .insert_at(&mut store, "\"k\"", "\"v\"", 10, now)
        .unwrap();

    assert_eq!(cache.get_at(&store, "\"k\"", now + 9).unwrap(), "\"v\"");
    assert_eq!(cache.get_at(&store, "\"k\"", now + 10), None);
    assert_eq!(cache.get_at(&store, "\"k\"", now + 11), None);
}

#[test]
fn zero_ttl_is_already_stale() {
    let mut store = Store::new();
    let cache = Cache::new(PREFIX);
    let now: i64 = 1_000_000;
    cache
        .insert_at(&mut store, "\"k\"", "\"v\"", 0, now)
        .unwrap();

    assert_eq!(cache.get_at(&store, "\"k\"", now), None);
}

#[test]
fn zero_ttl_through_wall_clock() {
    let mut store = Store::new();
    let cache = Cache::new(PREFIX);

    // a zero lifetime can never overflow, so the insert is owed success
    assert_eq!(cache.insert(&mut store, KEY, VALUE, 0), Ok(()));
    assert_eq!(cache.get(&store, KEY).unwrap(), None);
}

#[test]
fn namespace_isolation() {
    let mut store = Store::new();
    let first = Cache::new("alpha");
    let second = Cache::new("beta");
    first.insert(&mut store, KEY, "one", 10).unwrap();
    second.insert(&mut store, KEY, "two", 10).unwrap();

    assert_eq!(first.get(&store, KEY).unwrap().unwrap(), "one");
    assert_eq!(second.get(&store, KEY).unwrap().unwrap(), "two");
}

#[test]
fn empty_namespace_and_key() {
    let mut store = Store::new();
    let cache = Cache::new("");
    cache.insert(&mut store, "", VALUE, 10).unwrap();

    assert_eq!(cache.get(&store, "").unwrap().unwrap(), VALUE);
}

#[test]
fn structured_keys() {
    let key_a = serde_json::to_string(&json_object("name", KEY)).unwrap();
    let key_b = serde_json::to_string(&json_object("name", KEY)).unwrap();
    let key_c = serde_json::to_string(&json_object("name", "other")).unwrap();

    let mut store = Store::new();
    let cache = Cache::new(PREFIX);
    let now: i64 = 1_000_000;
    cache
        .insert_at(&mut store, &key_a, "\"v\"", 10, now)
        .unwrap();

    assert_eq!(cache.get_at(&store, &key_b, now).unwrap(), "\"v\"");
    assert_eq!(cache.get_at(&store, &key_c, now), None);
}

#[test]
fn overwrite_replaces_value_and_expiry() {
    let mut store = Store::new();
    let cache = Cache::new(PREFIX);
    let now: i64 = 1_000_000;
    cache
        .insert_at(&mut store, "\"k\"", "\"old\"", 100, now)
        .unwrap();
    cache
        .insert_at(&mut store, "\"k\"", "\"new\"", 10, now)
        .unwrap();

    assert_eq!(cache.get_at(&store, "\"k\"", now).unwrap(), "\"new\"");
    // the first entry's longer lifetime is gone with it
    assert_eq!(cache.get_at(&store, "\"k\"", now + 50), None);
}

#[test]
fn overwrite_with_negative_ttl_expires() {
    let mut store = Store::new();
    let cache = Cache::new(PREFIX);
    cache.insert(&mut store, KEY, VALUE, 10).unwrap();
    cache.insert(&mut store, KEY, VALUE, -1).unwrap();

    assert_eq!(cache.get(&store, KEY).unwrap(), None);
}

#[test]
fn absent_key() {
    let store = Store::new();
    let cache = Cache::new(PREFIX);

    assert_eq!(cache.get(&store, KEY).unwrap(), None);
}

#[test]
fn clock_overflow_is_reported() {
    let mut store = Store::new();
    let cache = Cache::new(PREFIX);

    assert_eq!(
        cache.insert_at(&mut store, "\"k\"", "\"v\"", 1, i64::MAX),
        Err(CacheError::ClockOverflow)
    );
    // the failed insert left the store untouched
    assert_eq!(cache.get_at(&store, "\"k\"", 0), None);
}

#[test]
fn clock_overflow_through_wall_clock() {
    let mut store = Store::new();
    let cache = Cache::new(PREFIX);

    assert_eq!(
        cache.insert(&mut store, KEY, VALUE, i64::MAX),
        Err(CacheError::ClockOverflow)
    );
}

#[test]
fn decode_mismatch_is_reported() {
    let mut store = Store::new();
    let cache = Cache::new(PREFIX);
    let key_json = serde_json::to_string(KEY).unwrap();
    let now = now_unix();
    // store a JSON number under the key, then ask for a string
    cache
        .insert_at(&mut store, &key_json, "123", 10, now)
        .unwrap();

    assert_eq!(cache.get(&store, KEY), Err(CacheError::Decode));
}

#[test]
fn encoding_matches_serde_json() {
    let mut store = Store::new();
    let cache = Cache::new(PREFIX);
    cache.insert(&mut store, KEY, VALUE, 10).unwrap();

    // what insert wrote is readable under the serde_json form of the key,
    // and holds the serde_json form of the value
    let key_json = serde_json::to_string(KEY).unwrap();
    let value_json = serde_json::to_string(VALUE).unwrap();
    let stored = cache.get_at(&store, &key_json, now_unix()).unwrap();
    assert_eq!(stored, value_json);
}
