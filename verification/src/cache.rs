//! The cache of badges: what was last shown for a request, kept for a while.

use cached::Cached;
use cached::TimedCache;
use vstd::prelude::*;
use crate::badge::BadgeOptions;
use crate::badge::BadgeView;
use crate::text::parse_u64;
use crate::text::parsed_u64;

verus! {

/// What a request is known by: the account, the monitor, and the query
/// parameters that bear on the badge, in ascending order of their names.
pub type CacheKey = (String, String, Vec<(String, String)>);

/// What is kept for a request: what the badge shows, and the HTTP status.
pub type CacheValue = (BadgeOptions, u16);

/// A key, its texts as sequences of characters.
pub type KeyView = (Seq<char>, Seq<char>, Seq<(Seq<char>, Seq<char>)>);

/// What a cache holds: for each key a badge and an HTTP status.
pub type Entries = Map<KeyView, (BadgeView, u16)>;

/// The texts of query parameters.
pub open spec fn pairs_view(pairs: Seq<(String, String)>) -> Seq<(Seq<char>, Seq<char>)> {
    pairs.map_values(|p: (String, String)| (p.0@, p.1@))
}

/// The texts of a key.
pub open spec fn key_view(key: CacheKey) -> KeyView {
    (key.0@, key.1@, pairs_view(key.2@))
}

/// The texts of a value.
pub open spec fn value_view(value: CacheValue) -> (BadgeView, u16) {
    (value.0@, value.1)
}

/// The timed cache of the `cached` crate.
#[verifier::external_type_specification]
#[verifier::external_body]
#[verifier::reject_recursive_types(K)]
#[verifier::reject_recursive_types(V)]
pub struct ExTimedCache<K, V>(TimedCache<K, V>);

/// What a timed cache holds, expired or not: for each key the value that
/// was last stored under it.
pub uninterp spec fn cache_entries(cache: TimedCache<CacheKey, CacheValue>) -> Entries;

/// The number of seconds for which a timed cache hands out what it holds.
pub uninterp spec fn cache_lifespan(cache: TimedCache<CacheKey, CacheValue>) -> u64;

/// `TimedCache::with_lifespan`: a cache that holds nothing and hands out
/// what is stored in it for `seconds` seconds.
#[verifier::external_body]
fn timed_cache(seconds: u64) -> (cache: TimedCache<CacheKey, CacheValue>)
    ensures
        cache_entries(cache) == Entries::empty(),
        cache_lifespan(cache) == seconds,
{
    TimedCache::with_lifespan(seconds)
}

/// `TimedCache::cache_get`, the value cloned.  A value that comes back is
/// the one that the cache holds for the key, and the cache is left as it
/// was.  When none comes back the cache holds nothing for the key
/// afterwards: it held nothing before, or what it held had expired and was
/// removed.  Which of the two happens to an entry depends on the clock.
#[verifier::external_body]
fn timed_get(cache: &mut TimedCache<CacheKey, CacheValue>, key: &CacheKey) -> (r: Option<
    CacheValue,
>)
    ensures
        r matches Some(value) ==> cache_entries(*old(cache)).contains_key(key_view(*key))
            && cache_entries(*old(cache))[key_view(*key)] == value_view(value),
        r is Some ==> cache_entries(*final(cache)) == cache_entries(*old(cache)),
        r is None ==> cache_entries(*final(cache)) == cache_entries(*old(cache)).remove(
            key_view(*key),
        ),
        cache_lifespan(*final(cache)) == cache_lifespan(*old(cache)),
{
    cache.cache_get(key).cloned()
}

/// `TimedCache::cache_set`, what it returns dropped: the cache holds the
/// value for the key afterwards, stamped with the time of the call, and is
/// otherwise as it was.
#[verifier::external_body]
fn timed_set(cache: &mut TimedCache<CacheKey, CacheValue>, key: CacheKey, value: CacheValue)
    ensures
        cache_entries(*final(cache)) == cache_entries(*old(cache)).insert(
            key_view(key),
            value_view(value),
        ),
        cache_lifespan(*final(cache)) == cache_lifespan(*old(cache)),
{
    cache.cache_set(key, value);
}

/// `Cached::cache_lifespan` of a timed cache: the number of seconds that the
/// cache was made with.
#[verifier::external_body]
fn timed_lifespan(cache: &TimedCache<CacheKey, CacheValue>) -> (r: Option<u64>)
    ensures
        r == Some(cache_lifespan(*cache)),
{
    cache.cache_lifespan()
}

/// The number of seconds for which a badge is kept where nothing else is
/// asked for.
pub const DEFAULT_LIFESPAN: u64 = 15;

/// The number of seconds for which a badge is kept: the number that was
/// read from the text that configures it, and `DEFAULT_LIFESPAN` where none
/// was read.
pub open spec fn lifespan_of(read: Option<u64>) -> u64 {
    match read {
        Some(seconds) => seconds,
        None => DEFAULT_LIFESPAN,
    }
}

/// The number of seconds for which a badge is kept, from the text that
/// configures it.
pub fn configured_lifespan(configured: Option<&str>) -> (seconds: u64)
    ensures
        seconds == match configured {
            Some(text) => lifespan_of(parsed_u64(text@)),
            None => DEFAULT_LIFESPAN,
        },
{
    match configured {
        Some(text) => match parse_u64(text) {
            Some(seconds) => seconds,
            None => DEFAULT_LIFESPAN,
        },
        None => DEFAULT_LIFESPAN,
    }
}

/// The cache of badges.
pub struct BadgeCache {
    store: TimedCache<CacheKey, CacheValue>,
}

impl BadgeCache {
    /// What the cache holds: for each key the value that was last put under
    /// it and has not been found expired since.
    pub closed spec fn view(&self) -> Entries {
        cache_entries(self.store)
    }

    /// The number of seconds for which a value is handed out.
    pub closed spec fn lifespan(&self) -> u64 {
        cache_lifespan(self.store)
    }

    /// An empty cache that hands out a value for `seconds` seconds.
    pub fn new(seconds: u64) -> (cache: BadgeCache)
        ensures
            cache@ == Entries::empty(),
            cache.lifespan() == seconds,
    {
        BadgeCache { store: timed_cache(seconds) }
    }

    /// The number of seconds for which a value is handed out.
    pub fn max_age(&self) -> (seconds: u64)
        ensures
            seconds == self.lifespan(),
    {
        match timed_lifespan(&self.store) {
            Some(seconds) => seconds,
            None => 0,
        }
    }

    /// The value that the cache holds for `key`, if it holds one that has
    /// not expired.  An expired value is removed.
    pub fn get(&mut self, key: &CacheKey) -> (r: Option<CacheValue>)
        ensures
            answers(old(self)@, key_view(*key), r, final(self)@),
            final(self).lifespan() == old(self).lifespan(),
    {
        timed_get(&mut self.store, key)
    }

    /// Puts `value` under `key`, in place of what was there.
    pub fn put(&mut self, key: CacheKey, value: CacheValue)
        ensures
            final(self)@ == old(self)@.insert(key_view(key), value_view(value)),
            final(self).lifespan() == old(self).lifespan(),
    {
        timed_set(&mut self.store, key, value)
    }
}

/// What a lookup of `key` may answer from a cache that holds `before`, and
/// what the cache holds after it.  A value that is handed out is the one
/// held for the key, and the cache stays as it was.  After a miss the cache
/// holds nothing for the key, and is otherwise as it was.
pub open spec fn answers(
    before: Entries,
    key: KeyView,
    answer: Option<CacheValue>,
    after: Entries,
) -> bool {
    match answer {
        Some(value) => before.contains_key(key) && before[key] == value_view(value) && after
            == before,
        None => after == before.remove(key),
    }
}

/// A lookup that follows a store under the same key hands out the stored
/// value, or nothing: never another value.
pub proof fn lemma_hit_is_last_put(
    before: Entries,
    key: KeyView,
    stored: (BadgeView, u16),
    answer: Option<CacheValue>,
    after: Entries,
)
    requires
        answers(before.insert(key, stored), key, answer, after),
    ensures
        answer matches Some(value) ==> value_view(value) == stored,
        answer is Some ==> after == before.insert(key, stored),
        answer is None ==> !after.contains_key(key),
{
}

/// A lookup neither answers from what is stored under another key nor
/// changes it.
pub proof fn lemma_lookup_keeps_other_keys(
    before: Entries,
    key: KeyView,
    answer: Option<CacheValue>,
    after: Entries,
    other: KeyView,
)
    requires
        answers(before, key, answer, after),
        other != key,
    ensures
        after.contains_key(other) == before.contains_key(other),
        before.contains_key(other) ==> after[other] == before[other],
        !before.contains_key(key) ==> answer is None,
{
}

} // verus!
