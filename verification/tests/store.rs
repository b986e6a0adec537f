use std::collections::{BTreeMap, BTreeSet};
use std::time::{Duration, SystemTime};

use gsheet::clock::{now_unix_seconds, unix_seconds_at};
use gsheet::store::{
    cache_key_prefix, expiry_key, CacheEntry, HeedCache, PurgeScan, StoreError, StoreOp,
};

struct Cache {
    entries: BTreeMap<String, CacheEntry>,
    expiry: BTreeSet<Vec<u8>>,
}

impl Cache {
    fn open() -> Self {
        Cache { entries: BTreeMap::new(), expiry: BTreeSet::new() }
    }

    fn apply(&mut self, ops: Vec<StoreOp>) {
        for op in ops {
            match op {
                StoreOp::PutEntry { key, entry } => {
                    self.entries.insert(key, entry);
                }
                StoreOp::DeleteEntry { key } => {
                    self.entries.remove(&key);
                }
                StoreOp::PutExpiry { index_key } => {
                    self.expiry.insert(index_key);
                }
                StoreOp::DeleteExpiry { index_key } => {
                    self.expiry.remove(&index_key);
                }
            }
        }
    }

    fn found(&self, key: &str) -> Option<CacheEntry> {
        self.entries.get(key).map(|entry| CacheEntry {
            body: entry.body.clone(),
            expires_at_unix_seconds: entry.expires_at_unix_seconds,
        })
    }

    fn purge_expired(&mut self, now: u64) -> Result<(), StoreError> {
        let mut scan = PurgeScan::new(now);
        for key in &self.expiry {
            if !scan.visit(key) {
                break;
            }
        }
        let ops = scan.finish()?;
        self.apply(ops);
        Ok(())
    }

    fn get(&mut self, key: &str, now: u64) -> Result<Option<Vec<u8>>, StoreError> {
        self.purge_expired(now)?;
        Ok(HeedCache {}.get(self.found(key)))
    }

    fn put(
        &mut self,
        key: &str,
        body: &[u8],
        ttl_seconds: u64,
        now: u64,
    ) -> Result<(), StoreError> {
        self.purge_expired(now)?;
        let ops = HeedCache {}.put(self.entries.get(key), key, body.to_vec(), ttl_seconds, now);
        self.apply(ops);
        Ok(())
    }

    fn get_metadata(&mut self, key: &str, now: u64) -> Result<Option<Vec<u8>>, StoreError> {
        self.get(&cache_key_prefix("m", key), now)
    }

    fn put_metadata(
        &mut self,
        key: &str,
        body: &[u8],
        ttl_seconds: u64,
        now: u64,
    ) -> Result<(), StoreError> {
        self.put(&cache_key_prefix("m", key), body, ttl_seconds, now)
    }

    fn get_values(&mut self, key: &str, now: u64) -> Result<Option<Vec<u8>>, StoreError> {
        self.get(&cache_key_prefix("v", key), now)
    }

    fn put_values(
        &mut self,
        key: &str,
        body: &[u8],
        ttl_seconds: u64,
        now: u64,
    ) -> Result<(), StoreError> {
        self.put(&cache_key_prefix("v", key), body, ttl_seconds, now)
    }
}

fn now() -> u64 {
    now_unix_seconds().expect("a clock after the epoch")
}

fn done<T>(result: Result<T, StoreError>) -> T {
    match result {
        Ok(value) => value,
        Err(error) => panic!("{}", error.message()),
    }
}

#[test]
fn expired_entry_is_removed_on_direct_read() {
    let mut cache = Cache::open();
    let payload = b"payload";

    done(cache.put_metadata("metadata:test", payload, 0, now()));

    assert_eq!(done(cache.get_metadata("metadata:test", now())), None);

    assert!(!cache.entries.contains_key(cache_key_prefix("m", "metadata:test").as_str()));
    assert!(cache.expiry.is_empty());
}

#[test]
fn unrelated_read_sweeps_cold_expired_entries() {
    let mut cache = Cache::open();
    let payload = b"payload";
    let start = now();

    done(cache.put_values("values:expired", payload, 1, start));

    let expired_index_key = {
        let prefixed_key = cache_key_prefix("v", "values:expired");
        let entry = cache.entries.get(prefixed_key.as_str()).expect("expired value entry");
        expiry_key(entry.expires_at_unix_seconds, prefixed_key.as_str())
    };
    assert!(cache.expiry.contains(&expired_index_key));

    let later = start + 1;
    done(cache.put_values("values:fresh", payload, 60, later));

    assert_eq!(done(cache.get_values("values:fresh", later)), Some(payload.to_vec()));

    assert!(!cache.entries.contains_key(cache_key_prefix("v", "values:expired").as_str()));
    assert!(!cache.expiry.contains(&expired_index_key));
}

#[test]
fn index_keys_are_big_endian_times_and_keys() {
    assert_eq!(
        expiry_key(0x0102030405060708, "v:é"),
        vec![1, 2, 3, 4, 5, 6, 7, 8, b'v', b':', 0xc3, 0xa9]
    );
    assert_eq!(expiry_key(258, ""), vec![0, 0, 0, 0, 0, 0, 1, 2]);
    assert_eq!(cache_key_prefix("m", "metadata:x"), "m:metadata:x");
}

#[test]
fn entries_live_until_their_time_has_passed() {
    let mut cache = Cache::open();
    done(cache.put_values("a", b"one", 10, 1000));
    assert_eq!(done(cache.get_values("a", 1009)), Some(b"one".to_vec()));
    assert_eq!(done(cache.get_values("a", 1010)), None);
    assert!(cache.entries.is_empty() && cache.expiry.is_empty());
}

#[test]
fn a_write_replaces_the_earlier_one() {
    let mut cache = Cache::open();
    done(cache.put_values("a", b"one", 10, 1000));
    done(cache.put_values("b", b"other", 500, 1000));
    done(cache.put_values("a", b"two", 100, 1005));
    assert_eq!(cache.expiry.len(), 2);
    assert_eq!(done(cache.get_values("a", 1050)), Some(b"two".to_vec()));
    assert_eq!(done(cache.get_values("b", 1050)), Some(b"other".to_vec()));
    assert_eq!(done(cache.get_values("a", 1105)), None);
    assert_eq!(done(cache.get_values("b", 1105)), Some(b"other".to_vec()));
}

#[test]
fn kinds_are_kept_apart() {
    let mut cache = Cache::open();
    done(cache.put_metadata("k", b"metadata", 10, 0));
    done(cache.put_values("k", b"values", 10, 0));
    assert_eq!(done(cache.get_metadata("k", 1)), Some(b"metadata".to_vec()));
    assert_eq!(done(cache.get_values("k", 1)), Some(b"values".to_vec()));
}

#[test]
fn a_removal_drops_the_entry_and_its_index_key() {
    let mut cache = Cache::open();
    done(cache.put_values("a", b"one", 10, 1000));
    let ops = HeedCache {}.remove(cache.entries.get("v:a"), "v:a");
    assert_eq!(ops.len(), 2);
    cache.apply(ops);
    assert!(cache.entries.is_empty() && cache.expiry.is_empty());
    assert!(HeedCache {}.remove(cache.entries.get("v:a"), "v:a").is_empty());
}

#[test]
fn a_purge_stops_at_the_first_key_that_has_not_expired() {
    let index = vec![
        expiry_key(5, "v:a"),
        expiry_key(7, "v:b"),
        expiry_key(8, "v:c"),
        expiry_key(6, "v:d"),
    ];
    let ops = match (HeedCache {}).purge_expired(&index, 7) {
        Ok(ops) => ops,
        Err(error) => panic!("{}", error.message()),
    };
    let mut removed = Vec::new();
    for op in ops {
        match op {
            StoreOp::DeleteEntry { key } => removed.push(key),
            StoreOp::DeleteExpiry { index_key } => assert!(index[..2].contains(&index_key)),
            _ => panic!("a purge only deletes"),
        }
    }
    assert_eq!(removed, vec!["v:a".to_string(), "v:b".to_string()]);
}

#[test]
fn index_keys_that_stand_for_no_entry_are_errors() {
    match (HeedCache {}).purge_expired(&vec![vec![0, 0, 0]], 7) {
        Err(error) => {
            assert!(matches!(error, StoreError::InvalidExpiryKey));
            assert_eq!(error.message(), "invalid expiry key");
        }
        Ok(_) => panic!("a short key was taken"),
    }
    match (HeedCache {}).purge_expired(&vec![vec![0, 0, 0, 0, 0, 0, 0, 1, b'v', 0xff]], 7) {
        Err(error) => {
            assert!(matches!(error, StoreError::InvalidText(_)));
            assert_eq!(error.message(), "invalid utf-8 sequence of 1 bytes from index 1");
        }
        Ok(_) => panic!("a key that is no text was taken"),
    }
}

#[test]
fn the_clock_counts_seconds_since_the_epoch() {
    let epoch = SystemTime::UNIX_EPOCH;
    assert_eq!(unix_seconds_at(&epoch), Some(0));
    assert_eq!(unix_seconds_at(&(epoch + Duration::from_millis(61_999))), Some(61));
    assert_eq!(unix_seconds_at(&(epoch - Duration::from_millis(1))), None);
    let reading = now();
    assert!(reading > 1_600_000_000);
    assert!(now() >= reading);
}

#[test]
fn reads_follow_the_last_write_of_their_key() {
    let mut cache = Cache::open();
    done(cache.put_values("a", b"one", 100, 1000));
    done(cache.put_values("b", b"other", 5, 1001));
    done(cache.put_values("a", b"two", 10, 1002));
    assert_eq!(done(cache.get_values("b", 1006)), None);
    assert_eq!(done(cache.get_values("a", 1011)), Some(b"two".to_vec()));
    assert_eq!(done(cache.get_values("a", 1012)), None);
    done(cache.put_values("a", b"three", 10, 1020));
    assert_eq!(done(cache.get_values("a", 1021)), Some(b"three".to_vec()));
    let ops = HeedCache {}.remove(cache.entries.get("v:a"), "v:a");
    cache.apply(ops);
    assert_eq!(done(cache.get_values("a", 1022)), None);
    assert!(cache.entries.is_empty() && cache.expiry.is_empty());
}
