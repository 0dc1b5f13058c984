use std::cell::{Cell, RefCell};
use std::collections::HashMap;
use waycast::cache::errors::CacheError;
use waycast::cache::{
    get, get_outcome, put, read_entry, remember_next, remember_start, remember_with_ttl,
    CacheEntry, CacheTTL, Lookup, RememberNext, RememberStart, TimeSpan, Timestamp,
};

fn at(millis: u64) -> Timestamp {
    Timestamp { nanos: millis as u128 * 1_000_000 }
}

/// A store in memory, with a clock that is set by hand.
struct Store {
    slots: RefCell<HashMap<String, (String, Option<Timestamp>)>>,
    broken: Cell<bool>,
    now: Cell<u64>,
    reads: Cell<u32>,
}

impl Store {
    fn new() -> Store {
        Store {
            slots: RefCell::new(HashMap::new()),
            broken: Cell::new(false),
            now: Cell::new(0),
            reads: Cell::new(0),
        }
    }

    fn read(&self, key: &str) -> Result<Option<CacheEntry<String>>, CacheError> {
        self.reads.set(self.reads.get() + 1);
        if self.broken.get() {
            return Err(CacheError::DatabaseError("store is gone".to_string()));
        }
        match self.slots.borrow().get(key) {
            Some((data, expires_at)) => {
                Ok(Some(CacheEntry { data: data.clone(), expires_at: *expires_at }))
            }
            None => Ok(None),
        }
    }

    fn write(&self, key: &str, entry: &CacheEntry<String>) -> Result<(), CacheError> {
        if self.broken.get() {
            return Err(CacheError::DatabaseError("store is gone".to_string()));
        }
        self.slots.borrow_mut().insert(key.to_string(), (entry.data.clone(), entry.expires_at));
        Ok(())
    }

    fn remember_with(
        &self,
        no_cache: bool,
        key: &str,
        ttl: Option<TimeSpan>,
        compute: &str,
    ) -> String {
        remember_with_ttl(
            no_cache,
            ttl,
            || at(self.now.get()),
            || self.read(key),
            || compute.to_string(),
            |entry: &CacheEntry<String>| {
                let _ = self.write(key, entry);
            },
        )
    }

    fn remember(&self, key: &str, compute: &str) -> String {
        self.remember_with(false, key, None, compute)
    }

    fn get(&self, key: &str) -> Result<Option<String>, CacheError> {
        let stored = self.read(key)?;
        get(
            stored,
            || at(self.now.get()),
            || {
                self.slots.borrow_mut().remove(key);
                Ok(())
            },
        )
    }

    fn put(&self, key: &str, value: &str, ttl: Option<TimeSpan>) -> Result<(), CacheError> {
        put(
            value.to_string(),
            ttl,
            || at(self.now.get()),
            |entry: CacheEntry<String>| self.write(key, &entry),
        )
    }
}

#[test]
fn test_cache_remember() {
    let cache = Store::new();

    let result = cache.remember("test_key", "computed_value");
    assert_eq!(result, "computed_value");

    // Second call should return cached value
    let result2 = cache.remember("test_key", "different_value");
    assert_eq!(result2, "computed_value");
}

#[test]
fn test_cache_ttl() {
    let cache = Store::new();

    // Cache with very short TTL
    let result =
        cache.remember_with(false, "ttl_key", Some(TimeSpan::from_millis(1)), "cached_value");
    assert_eq!(result, "cached_value");

    // Wait for expiration
    cache.now.set(10);

    // Should recompute after expiration
    let result2 =
        cache.remember_with(false, "ttl_key", Some(TimeSpan::from_millis(1)), "new_value");
    assert_eq!(result2, "new_value");
    // The new value was stored with a new expiry.
    assert_eq!(
        cache.slots.borrow().get("ttl_key"),
        Some(&("new_value".to_string(), Some(at(11))))
    );
}

#[test]
fn ttl_correctness() {
    let cache = Store::new();
    cache.now.set(100);
    assert_eq!(cache.put("k", "v", Some(TimeSpan::from_millis(10))), Ok(()));
    assert_eq!(cache.get("k"), Ok(Some("v".to_string())));
    cache.now.set(109);
    assert_eq!(cache.get("k"), Ok(Some("v".to_string())));
    assert!(cache.slots.borrow().contains_key("k"));
    cache.now.set(120);
    assert_eq!(cache.get("k"), Ok(None));
    // The entry is gone, and a later read finds nothing to remove.
    assert!(!cache.slots.borrow().contains_key("k"));
    assert_eq!(cache.get("k"), Ok(None));
    let again = get_outcome(cache.read("k").unwrap(), at(121));
    assert_eq!(again.value, None);
    assert!(!again.forget);
}

#[test]
fn put_overwrites() {
    let cache = Store::new();
    assert_eq!(cache.put("k", "one", None), Ok(()));
    assert_eq!(cache.put("k", "two", Some(TimeSpan::from_secs(1))), Ok(()));
    assert_eq!(cache.get("k"), Ok(Some("two".to_string())));
    assert_eq!(cache.get("other"), Ok(None));
    cache.broken.set(true);
    assert_eq!(
        cache.put("k", "three", None),
        Err(CacheError::DatabaseError("store is gone".to_string()))
    );
}

#[test]
fn a_failure_to_forget_is_the_failure_of_the_read() {
    let expired = CacheEntry { data: 1u8, expires_at: Some(at(5)) };
    let r = get(Some(expired), || at(5), || Err(CacheError::Other("locked".to_string())));
    assert_eq!(r, Err(CacheError::Other("locked".to_string())));
    let live = CacheEntry { data: 1u8, expires_at: Some(at(5)) };
    let r = get(Some(live), || at(4), || Err(CacheError::Other("locked".to_string())));
    assert_eq!(r, Ok(Some(1)));
}

#[test]
fn cache_bypass_always_computes() {
    let cache = Store::new();
    assert_eq!(cache.remember_with(true, "k", None, "one"), "one");
    assert_eq!(cache.remember_with(true, "k", None, "two"), "two");
    assert!(cache.slots.borrow().is_empty());
    assert_eq!(cache.reads.get(), 0);
    // Not even a value that is there is used.
    cache.put("k", "stored", None).unwrap();
    assert_eq!(cache.remember_with(true, "k", None, "three"), "three");
    assert_eq!(cache.reads.get(), 0);
    assert_eq!(cache.remember_with(false, "k", None, "four"), "stored");
    assert_eq!(remember_start(true), RememberStart::Compute);
    assert_eq!(remember_start(false), RememberStart::Lookup);
}

#[test]
fn a_broken_store_is_a_miss() {
    let cache = Store::new();
    cache.put("k", "stored", None).unwrap();
    cache.broken.set(true);
    assert_eq!(cache.remember("k", "computed"), "computed");
    cache.broken.set(false);
    // Nothing was written back.
    assert_eq!(cache.get("k"), Ok(Some("stored".to_string())));
    assert!(matches!(
        remember_next::<String>(Err(CacheError::Other("x".to_string())), at(0)),
        RememberNext::ComputeOnly
    ));
}

#[test]
fn an_entry_expires_exactly_at_its_expiry() {
    let entry = CacheEntry::new(7u8, Some(TimeSpan { nanos: 5 }), Timestamp { nanos: 10 });
    assert_eq!(entry.expires_at, Some(Timestamp { nanos: 15 }));
    assert!(entry.is_live(Timestamp { nanos: 10 }));
    assert!(entry.is_live(Timestamp { nanos: 14 }));
    assert!(!entry.is_live(Timestamp { nanos: 15 }));
    assert!(!entry.is_live(Timestamp { nanos: 16 }));
}

#[test]
fn an_entry_without_ttl_never_expires() {
    let entry = CacheEntry::new(7u8, None, Timestamp { nanos: 10 });
    assert_eq!(entry.expires_at, None);
    assert!(entry.is_live(Timestamp { nanos: 0 }));
    assert!(entry.is_live(Timestamp { nanos: u128::MAX }));
}

#[test]
fn an_expiry_beyond_the_end_of_time_is_the_end_of_time() {
    let entry =
        CacheEntry::new(7u8, Some(TimeSpan { nanos: 10 }), Timestamp { nanos: u128::MAX - 3 });
    assert_eq!(entry.expires_at, Some(Timestamp { nanos: u128::MAX }));
}

#[test]
fn read_entry_tells_hit_expired_and_miss() {
    let live = CacheEntry { data: 1u8, expires_at: Some(at(10)) };
    let dead = CacheEntry { data: 2u8, expires_at: Some(at(10)) };
    assert!(matches!(read_entry(Some(live), at(9)), Lookup::Hit(1)));
    assert!(matches!(read_entry(Some(dead), at(10)), Lookup::Expired));
    assert!(matches!(read_entry::<u8>(None, at(0)), Lookup::Miss));
    assert!(matches!(
        remember_next(Ok(Some(CacheEntry { data: 3u8, expires_at: None })), at(5)),
        RememberNext::Return(3)
    ));
    assert!(matches!(
        remember_next(Ok(Some(CacheEntry { data: 3u8, expires_at: Some(at(5)) })), at(5)),
        RememberNext::ComputeAndStore
    ));
    assert!(matches!(remember_next::<u8>(Ok(None), at(5)), RememberNext::ComputeAndStore));
}

#[test]
fn ttl_in_hours_and_minutes() {
    assert_eq!(CacheTTL::hours(24), Some(TimeSpan { nanos: 86_400_000_000_000 }));
    assert_eq!(CacheTTL::hours(0), Some(TimeSpan { nanos: 0 }));
    assert_eq!(CacheTTL::minutes(1), Some(TimeSpan { nanos: 60_000_000_000 }));
    assert_eq!(
        CacheTTL::hours(u64::MAX),
        Some(TimeSpan { nanos: u64::MAX as u128 * 3_600_000_000_000 })
    );
    assert_eq!(TimeSpan::from_secs(2), TimeSpan { nanos: 2_000_000_000 });
    assert_eq!(TimeSpan::from_millis(10), TimeSpan { nanos: 10_000_000 });
    assert_eq!(waycast::projects::PROJECT_TYPE_TTL_HOURS, 24);
}

#[test]
fn cache_errors_in_words() {
    assert_eq!(
        CacheError::DatabaseError("locked".to_string()).describe(),
        "Database error: locked"
    );
    assert_eq!(
        CacheError::SerializationError("bad bytes".to_string()).describe(),
        "Serialization error: bad bytes"
    );
    assert_eq!(CacheError::Other("why".to_string()).describe(), "Cache error: why");
}
