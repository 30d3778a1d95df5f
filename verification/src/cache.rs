use vstd::prelude::*;
use crate::text::str_eq;

verus! {

/// Anything usable as a key of the cache tiers.
pub trait IntoCacheKey {
    /// The fingerprint this value is cached under.
    spec fn cache_key_spec(&self) -> Seq<char>;

    fn into_cache_key(&self) -> (r: String)
        ensures
            r@ == self.cache_key_spec(),
    ;
}

impl IntoCacheKey for String {
    open spec fn cache_key_spec(&self) -> Seq<char> {
        self@
    }

    fn into_cache_key(&self) -> (r: String)
        ensures
            r@ == self.cache_key_spec(),
    {
        self.clone()
    }
}

/// The key-value store behind the cache facade. `None` stands for a process
/// with no cache backing configured: every read misses and every write is
/// silently dropped, so caching is only ever an optimization.
pub struct Cache {
    store: Option<Vec<(String, String)>>,
}

/// Whether a backing store is configured.
pub closed spec fn cache_enabled(c: Cache) -> bool {
    c.store is Some
}

/// The value stored under `k` in an entry list; the most recent write stands
/// first and wins.
spec fn lookup_entries(es: Seq<(String, String)>, k: Seq<char>) -> Option<Seq<char>>
    decreases es.len(),
{
    if es.len() == 0 {
        None
    } else if es[0].0@ == k {
        Some(es[0].1@)
    } else {
        lookup_entries(es.drop_first(), k)
    }
}

/// The value the cache holds under `k`, if any; a disabled cache holds
/// nothing.
pub closed spec fn cache_lookup(c: Cache, k: Seq<char>) -> Option<Seq<char>> {
    match c.store {
        Some(es) => lookup_entries(es@, k),
        None => None,
    }
}

/// Builds the process-wide cache facade: an empty store when caching is
/// enabled, the no-op facade when it is not.
pub fn cache(enabled: bool) -> (r: Cache)
    ensures
        cache_enabled(r) == enabled,
        forall|k: Seq<char>| cache_lookup(r, k) is None,
{
    if enabled {
        let r = Cache { store: Some(Vec::new()) };
        proof {
            assert(forall|k: Seq<char>| cache_lookup(r, k) is None);
        }
        r
    } else {
        Cache { store: None }
    }
}

impl Cache {
    /// Reads the value cached under `key`. Never fails the caller: a disabled
    /// cache simply misses.
    pub fn try_read(&self, key: &str) -> (r: Option<String>)
        ensures
            match r {
                Some(v) => cache_lookup(*self, key@) == Some(v@),
                None => cache_lookup(*self, key@) is None,
            },
    {
        let es = match &self.store {
            None => {
                return None;
            },
            Some(es) => es,
        };
        proof {
            assert(self.store is Some && self.store->0 == *es);
        }
        let mut i: usize = 0;
        proof {
            assert(es@.skip(0) =~= es@);
        }
        while i < es.len()
            invariant
                i <= es@.len(),
                self.store is Some && self.store->0 == *es,
                lookup_entries(es@.skip(i as int), key@) == lookup_entries(es@, key@),
            decreases es@.len() - i,
        {
            proof {
                assert(es@.skip(i as int)[0] == es@[i as int]);
                assert(es@.skip(i as int).drop_first() =~= es@.skip(i + 1));
            }
            if str_eq(es[i].0.as_str(), key) {
                proof {
                    assert(lookup_entries(es@.skip(i as int), key@) == Some(es@[i as int].1@));
                    assert(cache_lookup(*self, key@) == lookup_entries(es@, key@));
                }
                let v = es[i].1.clone();
                proof {
                    assert(v@ == es@[i as int].1@);
                }
                return Some(v);
            }
            i = i + 1;
        }
        proof {
            assert(es@.skip(es@.len() as int) =~= Seq::<(String, String)>::empty());
        }
        None
    }

    /// Writes `value` under `key`, best-effort: on a disabled cache the write
    /// is silently dropped, and the caller never learns of either outcome.
    pub fn try_write(&mut self, key: &str, value: &str)
        ensures
            cache_enabled(*final(self)) == cache_enabled(*old(self)),
            cache_enabled(*old(self)) ==> cache_lookup(*final(self), key@) == Some(value@),
            cache_enabled(*old(self)) ==> forall|k: Seq<char>|
                k != key@ ==> cache_lookup(*final(self), k) == cache_lookup(*old(self), k),
            !cache_enabled(*old(self)) ==> *final(self) == *old(self),
    {
        match &mut self.store {
            None => {},
            Some(es) => {
                let ghost old_es = es@;
                es.insert(0, (key.to_owned(), value.to_owned()));
                proof {
                    assert(es@.drop_first() =~= old_es);
                    assert(es@[0].0@ == key@);
                    assert(es@[0].1@ == value@);
                }
            },
        }
    }
}

} // verus!
