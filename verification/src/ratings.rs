//! Answers to rating lookups, in the JSON form the front end receives, and
//! the decisions taken around the ratings database.
use vstd::prelude::*;

verus! {

broadcast use vstd::seq_lib::group_seq_properties;

#[verifier::external_type_specification]
#[verifier::external_body]
pub struct ExJsonValue(serde_json::Value);

#[verifier::external_type_specification]
#[verifier::external_body]
#[verifier::reject_recursive_types(K)]
#[verifier::reject_recursive_types(V)]
pub struct ExJsonMap<K, V>(serde_json::Map<K, V>);

/// The ratings of an empty object.
pub open spec fn no_ratings() -> Map<Seq<char>, Option<i64>> {
    Map::empty()
}

/// What `serde_json::Value::from` returns for an optional rating.
pub uninterp spec fn json_of_rating(rating: Option<i64>) -> serde_json::Value;

/// What `serde_json::Value::from` returns for a boolean.
pub uninterp spec fn json_of_bool(b: bool) -> serde_json::Value;

/// The ratings, by key, whose JSON forms a `serde_json::Map` built here holds.
pub uninterp spec fn json_object_ratings(
    m: serde_json::Map<String, serde_json::Value>,
) -> Map<Seq<char>, Option<i64>>;

/// Calls `serde_json::Value::from(rating)`: `Null` for `None`, the JSON
/// number for `Some(x)`. Distinct ratings give distinct values.
#[verifier::external_body]
fn rating_json(rating: Option<i64>) -> (v: serde_json::Value)
    ensures
        v == json_of_rating(rating),
        forall|other: Option<i64>| #[trigger] json_of_rating(other) == v ==> other == rating,
{
    serde_json::Value::from(rating)
}

/// Calls `serde_json::Value::from(b)`, which is `Value::Bool(b)`: never
/// equal to the value of a rating, which is `Null` or a number.
#[verifier::external_body]
fn bool_json(b: bool) -> (v: serde_json::Value)
    ensures
        v == json_of_bool(b),
        forall|rating: Option<i64>| #[trigger] json_of_rating(rating) != v,
{
    serde_json::Value::from(b)
}

/// Calls `serde_json::Map::new()`, an empty map.
#[verifier::external_body]
fn new_json_object() -> (m: serde_json::Map<String, serde_json::Value>)
    ensures
        json_object_ratings(m) == no_ratings(),
{
    serde_json::Map::new()
}

/// Calls `serde_json::Map::insert` with `key` and `Value::from(rating)`: the
/// key is added, or its value replaced.
#[verifier::external_body]
fn insert_rating(m: &mut serde_json::Map<String, serde_json::Value>, key: String, rating: Option<i64>)
    ensures
        json_object_ratings(*final(m)) == json_object_ratings(*old(m)).insert(key@, rating),
{
    m.insert(key, serde_json::Value::from(rating));
}

/// The reply to a lookup that found `found`: `Some(rating)` when a record
/// exists (its rating, possibly null), `None` when none does.
pub open spec fn rating_reply_of(found: Option<Option<i64>>) -> serde_json::Value {
    match found {
        Some(rating) => json_of_rating(rating),
        None => json_of_bool(false),
    }
}

/// Answers a rating lookup: the stored rating (a number, or null for a record
/// without one) when a record was found, `false` when none was.
pub fn rating_reply(found: Option<Option<i64>>) -> (reply: serde_json::Value)
    ensures
        reply == rating_reply_of(found),
        found is None ==> forall|rating: Option<i64>| #[trigger] json_of_rating(rating) != reply,
        found matches Some(stored) ==> forall|rating: Option<i64>|
            #[trigger] json_of_rating(rating) == reply ==> rating == stored,
{
    match found {
        Some(rating) => rating_json(rating),
        None => bool_json(false),
    }
}

/// The rating shown for one pathname of a batch: the stored number, or null
/// when there is no record or the record has no rating.
pub open spec fn flatten_rating(found: Option<Option<i64>>) -> Option<i64> {
    match found {
        Some(Some(x)) => Some(x),
        _ => None,
    }
}

/// The ratings of a batch: each pathname in turn mapped to its rating, a
/// later occurrence of a pathname replacing an earlier one.
pub open spec fn batch_ratings(
    pathnames: Seq<String>,
    found: Seq<Option<Option<i64>>>,
) -> Map<Seq<char>, Option<i64>>
    decreases pathnames.len(),
{
    if pathnames.len() == 0 || found.len() == 0 {
        Map::empty()
    } else {
        batch_ratings(pathnames.drop_last(), found.drop_last()).insert(
            pathnames.last()@,
            flatten_rating(found.last()),
        )
    }
}

/// Builds the JSON object of a batch lookup: `found[i]` is what the lookup
/// of `pathnames[i]` found.
pub fn ratings_batch(pathnames: &Vec<String>, found: &Vec<Option<Option<i64>>>) -> (object:
    serde_json::Map<String, serde_json::Value>)
    requires
        pathnames.len() == found.len(),
    ensures
        json_object_ratings(object) == batch_ratings(pathnames@, found@),
{
    let mut object = new_json_object();
    let mut i: usize = 0;
    while i < pathnames.len()
        invariant
            i <= pathnames.len(),
            pathnames.len() == found.len(),
            json_object_ratings(object) == batch_ratings(
                pathnames@.take(i as int),
                found@.take(i as int),
            ),
        decreases pathnames.len() - i,
    {
        let rating: Option<i64> = match found[i] {
            Some(Some(x)) => Some(x),
            _ => None,
        };
        insert_rating(&mut object, pathnames[i].clone(), rating);
        proof {
            let p = pathnames@.take(i + 1);
            let f = found@.take(i + 1);
            assert(p.drop_last() =~= pathnames@.take(i as int));
            assert(f.drop_last() =~= found@.take(i as int));
        }
        i = i + 1;
    }
    assert(pathnames@.take(pathnames.len() as int) =~= pathnames@);
    assert(found@.take(found.len() as int) =~= found@);
    object
}

/// Every pathname of a batch is a key of the answer, no other key is, and
/// when every lookup of a pathname found the same thing, the pathname's value
/// is the stored rating `x` when the record has one (whatever `x` is), and
/// null when there is no record or the record has no rating.
pub proof fn law_batch_answers_each_pathname(
    pathnames: Seq<String>,
    found: Seq<Option<Option<i64>>>,
)
    requires
        pathnames.len() == found.len(),
        forall|i: int, j: int|
            0 <= i < pathnames.len() && 0 <= j < pathnames.len() && pathnames[i]@
                == pathnames[j]@ ==> found[i] == found[j],
    ensures
        forall|i: int|
            0 <= i < pathnames.len() ==> #[trigger] batch_ratings(pathnames, found).contains_key(
                pathnames[i]@,
            ) && batch_ratings(pathnames, found)[pathnames[i]@] == match found[i] {
                Some(Some(x)) => Some(x),
                _ => None,
            },
        forall|key: Seq<char>|
            #[trigger] batch_ratings(pathnames, found).contains_key(key) ==> exists|i: int|
                0 <= i < pathnames.len() && pathnames[i]@ == key,
    decreases pathnames.len(),
{
    if pathnames.len() > 0 {
        let p = pathnames.drop_last();
        let f = found.drop_last();
        law_batch_answers_each_pathname(p, f);
        let n = pathnames.len() - 1;
        assert forall|key: Seq<char>|
            #[trigger] batch_ratings(pathnames, found).contains_key(key) implies exists|i: int|
                0 <= i < pathnames.len() && pathnames[i]@ == key by {
            if key != pathnames[n]@ {
                assert(batch_ratings(p, f).contains_key(key));
                let i = choose|i: int| 0 <= i < p.len() && p[i]@ == key;
                assert(pathnames[i]@ == key);
            }
        }
        assert forall|i: int| 0 <= i < pathnames.len() implies #[trigger] batch_ratings(
            pathnames,
            found,
        ).contains_key(pathnames[i]@) && batch_ratings(pathnames, found)[pathnames[i]@]
            == flatten_rating(found[i]) by {
            if i < n {
                assert(p[i] == pathnames[i]);
                assert(f[i] == found[i]);
            }
        }
    }
}

/// Whether the stored record found by audio hash should be re-pointed at the
/// requested pathname: only when the stored pathname differs and no longer
/// exists (a move); when it still exists the file was copied and the record
/// keeps the original.
pub fn should_repoint(requested: &String, stored: &String, stored_exists: bool) -> (repoint: bool)
    ensures
        repoint == (requested@ != stored@ && !stored_exists),
{
    !(*stored == *requested) && !stored_exists
}

/// Whether the database shipped beside the program is copied into the
/// application data directory: only when no database is there yet.
pub fn should_copy_bundled_database(target_exists: bool, bundled_exists: bool) -> (copy: bool)
    ensures
        copy == (!target_exists && bundled_exists),
{
    !target_exists && bundled_exists
}

/// The key under which a file's audio hash is cached: its size and its
/// modification time in milliseconds, stored as SQLite integers.
#[derive(Debug, Clone, Copy, PartialEq, Eq, Structural)]
pub struct HashCacheKey {
    pub file_size: i64,
    pub mtime_ms: i64,
}

/// The cache key of a file of `len` bytes modified `mtime_ms` milliseconds
/// after the Unix epoch (each converted to `i64` with wrap-around, as `as`
/// does).
pub fn hash_cache_key(len: u64, mtime_ms: u128) -> (key: HashCacheKey)
    ensures
        key.file_size == len as i64,
        key.mtime_ms == mtime_ms as i64,
{
    HashCacheKey {
        file_size: #[verifier::truncate] (len as i64),
        mtime_ms: #[verifier::truncate] (mtime_ms as i64),
    }
}

/// A rating as it is written to the ratings table.
pub struct RatingRecord {
    pub audio_hash: String,
    pub pathname: String,
    pub rating: i64,
    pub rated_timestamp: i64,
}

impl RatingRecord {
    /// The record for rating the file at `pathname`, whose audio hash is
    /// `audio_hash`, at `secs` seconds after the Unix epoch.
    pub fn new(audio_hash: String, pathname: String, rating: i64, secs: u64) -> (record: Self)
        ensures
            record.audio_hash == audio_hash,
            record.pathname == pathname,
            record.rating == rating,
            record.rated_timestamp == secs as i64,
    {
        RatingRecord {
            audio_hash,
            pathname,
            rating,
            rated_timestamp: #[verifier::truncate] (secs as i64),
        }
    }
}

/// A lookup that found a record answers that record's rating (null when it
/// has none); a lookup that found nothing answers JSON `false`.
pub proof fn law_rating_reply_answers(found: Option<Option<i64>>)
    ensures
        found matches Some(rating) ==> rating_reply_of(found) == json_of_rating(rating),
        found is None ==> rating_reply_of(found) == json_of_bool(false),
{
}

/// The rating a batch shows for one lookup: the stored number `x` for any
/// record rated `x`, null otherwise.
pub proof fn law_flatten_keeps_stored_rating(x: i64)
    ensures
        flatten_rating(Some(Some(x))) == Some(x),
        flatten_rating(Some(None)) == None::<i64>,
        flatten_rating(None) == None::<i64>,
{
}

} // verus!
