use audiostar::ratings::{
    hash_cache_key, rating_reply, ratings_batch, should_copy_bundled_database, should_repoint,
    HashCacheKey, RatingRecord,
};
use serde_json::Value;

#[test]
fn rating_reply_values() {
    assert_eq!(rating_reply(Some(Some(4))), Value::from(4));
    assert_eq!(rating_reply(Some(Some(-1))), Value::from(-1));
    assert_eq!(rating_reply(Some(None)), Value::Null);
    assert_eq!(rating_reply(None), Value::Bool(false));
    assert_ne!(rating_reply(None), rating_reply(Some(Some(0))));
    assert_ne!(rating_reply(None), rating_reply(Some(None)));
}

#[test]
fn batch_maps_each_pathname() {
    let paths = vec!["/a.mp3".to_string(), "/b.mp3".to_string(), "/c.mp3".to_string(), "/a.mp3".to_string()];
    let found = vec![Some(Some(5)), None, Some(None), Some(Some(5))];
    let object = ratings_batch(&paths, &found);
    assert_eq!(object.len(), 3);
    assert_eq!(object.get("/a.mp3"), Some(&Value::from(5)));
    assert_eq!(object.get("/b.mp3"), Some(&Value::Null));
    assert_eq!(object.get("/c.mp3"), Some(&Value::Null));
    assert!(ratings_batch(&Vec::new(), &Vec::new()).is_empty());
}

#[test]
fn repoint_only_moved_records() {
    let a = "/music/a.mp3".to_string();
    let b = "/music/b.mp3".to_string();
    assert!(should_repoint(&a, &b, false));
    assert!(!should_repoint(&a, &b, true));
    assert!(!should_repoint(&a, &a, false));
    assert!(!should_repoint(&a, &a, true));
}

#[test]
fn bundled_database_copied_only_when_missing() {
    assert!(should_copy_bundled_database(false, true));
    assert!(!should_copy_bundled_database(true, true));
    assert!(!should_copy_bundled_database(false, false));
    assert!(!should_copy_bundled_database(true, false));
}

#[test]
fn cache_key_wraps_like_as_casts() {
    assert_eq!(hash_cache_key(1234, 1_700_000_000_000), HashCacheKey { file_size: 1234, mtime_ms: 1_700_000_000_000 });
    assert_eq!(hash_cache_key(u64::MAX, 1u128 << 64).file_size, -1);
    assert_eq!(hash_cache_key(u64::MAX, (1u128 << 64) + 7).mtime_ms, 7);
}

#[test]
fn rating_record_fields() {
    let r = RatingRecord::new("00ff".to_string(), "/x.mp3".to_string(), 3, 1_700_000_000);
    assert_eq!(r.audio_hash, "00ff");
    assert_eq!(r.pathname, "/x.mp3");
    assert_eq!(r.rating, 3);
    assert_eq!(r.rated_timestamp, 1_700_000_000);
    assert_eq!(RatingRecord::new(String::new(), String::new(), 0, u64::MAX).rated_timestamp, -1);
}
