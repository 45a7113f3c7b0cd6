//! The cache handle: a namespace wrapped around the shared store.

use vstd::prelude::*;
use vstd::string::StringExecFns;

use crate::clock::now_unix;
use crate::json::json_decode_str;
use crate::json::json_encode_str;
use crate::json::json_str_of;
use crate::json::json_str_parse;
use crate::store::CacheEntry;
use crate::store::Store;

verus! {

/// The encoded key: the namespace, one ':' delimiter, and the serialized
/// logical key. Distinct namespaces that avoid the delimiter can never
/// produce the same encoded key.
pub open spec fn encoded_key(ns: Seq<char>, key_json: Seq<char>) -> Seq<char> {
    ns + seq![':'] + key_json
}

/// What a lookup at instant `now` finds in a store: the serialized value
/// under `ek` if it is present and not yet stale, else nothing. An entry
/// whose expiration instant is `now` or earlier counts as absent.
pub open spec fn spec_lookup(
    store: Map<Seq<char>, (Seq<char>, int)>,
    ek: Seq<char>,
    now: int,
) -> Option<Seq<char>> {
    if store.contains_key(ek) && store[ek].1 > now {
        Some(store[ek].0)
    } else {
        None
    }
}

/// The errors the cache surfaces instead of aborting: a key or value that
/// would not serialize (string keys and payloads never produce this, so
/// the operations here never return it; an embedding layer serializing
/// arbitrary types can), a stored value that does not decode to the shape
/// the caller asked for, and a lifetime that overflows the expiration
/// instant.
#[derive(Clone, Copy, PartialEq, Eq, Debug)]
pub enum CacheError {
    Encode,
    Decode,
    ClockOverflow,
}

/// A lightweight, cheaply copyable handle wrapping a namespace string; it
/// has no state of its own, and every operation routes through the store
/// it is given.
#[derive(Clone, Debug)]
pub struct Cache(String);

impl View for Cache {
    type V = Seq<char>;

    closed spec fn view(&self) -> Seq<char> {
        self.0@
    }
}

impl Cache {
    /// A handle over `prefix`. Any string is accepted; keeping the ':'
    /// delimiter out of it preserves namespace isolation.
    pub fn new(prefix: &str) -> (r: Self)
        ensures
            r@ == prefix@,
    {
        Cache(String::from_str(prefix))
    }

    /// The encoded form of a serialized logical key under this handle's
    /// namespace.
    fn get_key(&self, key_json: &str) -> (r: String)
        ensures
            r@ == encoded_key(self@, key_json@),
    {
        let mut s = self.0.clone();
        s.append(":");
        s.append(key_json);
        proof {
            reveal_strlit(":");
            assert(":"@ =~= seq![':']);
        }
        s
    }

    /// Lookup against an explicit clock reading: returns exactly what
    /// `spec_lookup` says the store holds for this namespace, serialized
    /// key and instant. The store is never mutated; a stale entry stays.
    pub fn get_at(&self, store: &Store, key_json: &str, now: i64) -> (r: Option<String>)
        ensures
            match r {
                Some(v) => spec_lookup(store@, encoded_key(self@, key_json@), now as int)
                    == Some(v@),
                None => spec_lookup(store@, encoded_key(self@, key_json@), now as int) is None,
            },
    {
        let ek = self.get_key(key_json);
        match store.lookup(&ek) {
            None => None,
            Some(entry) => if entry.expiring > now {
                Some(entry.value.clone())
            } else {
                None
            },
        }
    }

    /// Insert against an explicit clock reading: the entry expires at
    /// `now + ttl`, and the write replaces whatever the encoded key held.
    /// The one failure is a lifetime that overflows the expiration
    /// instant, and then the store is untouched.
    pub fn insert_at(
        &self,
        store: &mut Store,
        key_json: &str,
        value_json: &str,
        ttl: i64,
        now: i64,
    ) -> (r: Result<(), CacheError>)
        ensures
            r is Ok <==> i64::MIN <= now as int + ttl as int <= i64::MAX,
            r is Ok ==> final(store)@ == old(store)@.insert(
                encoded_key(self@, key_json@),
                (value_json@, now as int + ttl as int),
            ),
            r matches Err(e) ==> e == CacheError::ClockOverflow && final(store)@ == old(store)@,
    {
        match now.checked_add(ttl) {
            None => Err(CacheError::ClockOverflow),
            Some(expiring) => {
                let ek = self.get_key(key_json);
                store.put(ek, CacheEntry { value: String::from_str(value_json), expiring });
                Ok(())
            },
        }
    }

    /// Lookup of a string payload under a string key, as the embedding
    /// code uses it: the key is serialized (which for a string cannot
    /// fail), the clock is read, and the stored text is decoded back
    /// into a string. Whatever the clock returns: a key whose encoded
    /// form is absent yields exactly `Ok(None)`; a value comes back only
    /// from the right encoded key and is exactly what the stored text
    /// parses to; and the one error is a stored text that is no JSON
    /// string. The exact expiry semantics stand in `get_at`, which this
    /// calls.
    pub fn get(&self, store: &Store, key: &str) -> (r: Result<Option<String>, CacheError>)
        ensures
            r matches Ok(Some(v)) ==> store@.contains_key(encoded_key(self@, json_str_of(key@)))
                && json_str_parse(store@[encoded_key(self@, json_str_of(key@))].0) == Some(v@)
                && (forall|p: Seq<char>|
                    store@[encoded_key(self@, json_str_of(key@))].0 == #[trigger] json_str_of(p)
                        ==> v@ == p),
            !store@.contains_key(encoded_key(self@, json_str_of(key@)))
                ==> r == Ok::<Option<String>, CacheError>(None),
            r matches Err(e) ==> e == CacheError::Decode
                && store@.contains_key(encoded_key(self@, json_str_of(key@)))
                && json_str_parse(store@[encoded_key(self@, json_str_of(key@))].0) is None,
    {
        let kj = match json_encode_str(key) {
            Ok(kj) => kj,
            Err(_) => unreached(),
        };
        let now = now_unix();
        match self.get_at(store, kj.as_str(), now) {
            None => Ok(None),
            Some(stored) => match json_decode_str(stored.as_str()) {
                Ok(v) => Ok(Some(v)),
                Err(_) => Err(CacheError::Decode),
            },
        }
    }

    /// Insert of a string payload under a string key: both are
    /// serialized (which for strings cannot fail), the clock is read,
    /// and the entry is written with an expiration instant `ttl` seconds
    /// from now. On success the encoded key holds the serialized payload
    /// and every other key is untouched. The one error is an expiration
    /// instant that overflows — which a zero lifetime never does,
    /// whatever the clock — and then the store is untouched. The exact
    /// expiry arithmetic stands in `insert_at`, which this calls.
    pub fn insert(
        &self,
        store: &mut Store,
        key: &str,
        value: &str,
        ttl: i64,
    ) -> (r: Result<(), CacheError>)
        ensures
            r is Ok ==> final(store)@.contains_key(encoded_key(self@, json_str_of(key@)))
                && final(store)@[encoded_key(self@, json_str_of(key@))].0
                    == json_str_of(value@)
                && final(store)@.remove(encoded_key(self@, json_str_of(key@)))
                    == old(store)@.remove(encoded_key(self@, json_str_of(key@))),
            r matches Err(e) ==> e == CacheError::ClockOverflow
                && final(store)@ == old(store)@,
            ttl == 0 ==> r is Ok,
    {
        let kj = match json_encode_str(key) {
            Ok(kj) => kj,
            Err(_) => unreached(),
        };
        let vj = match json_encode_str(value) {
            Ok(vj) => vj,
            Err(_) => unreached(),
        };
        let now = now_unix();
        match self.insert_at(store, kj.as_str(), vj.as_str(), ttl, now) {
            Ok(u) => {
                proof {
                    let ek = encoded_key(self@, json_str_of(key@));
                    assert(store@.remove(ek) =~= old(store)@.remove(ek));
                }
                Ok(u)
            },
            Err(e) => Err(e),
        }
    }
}

} // verus!
