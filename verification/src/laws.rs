//! The cache's laws, stated over the store model and proved for all
//! inputs. Each is phrased over the same spec functions that the
//! operations' contracts use: `encoded_key`, `spec_lookup`, and
//! `Map::insert`, so every law speaks directly about what `insert_at`
//! writes and what `get_at` returns.

use vstd::prelude::*;

use crate::cache::encoded_key;
use crate::cache::spec_lookup;

verus! {

/// Round trip: a value inserted with a positive lifetime is returned by a
/// lookup at the same instant, under the same namespace and serialized
/// key.
pub proof fn lemma_round_trip(
    store: Map<Seq<char>, (Seq<char>, int)>,
    ns: Seq<char>,
    key_json: Seq<char>,
    value_json: Seq<char>,
    ttl: int,
    now: int,
)
    requires
        ttl > 0,
    ensures
        spec_lookup(
            store.insert(encoded_key(ns, key_json), (value_json, now + ttl)),
            encoded_key(ns, key_json),
            now,
        ) == Some(value_json),
{
}

/// Immediate expiry: a value inserted with a zero or negative lifetime is
/// already stale, so a lookup at the same instant (or any later one)
/// reports it absent.
pub proof fn lemma_immediate_expiry(
    store: Map<Seq<char>, (Seq<char>, int)>,
    ns: Seq<char>,
    key_json: Seq<char>,
    value_json: Seq<char>,
    ttl: int,
    now: int,
    later: int,
)
    requires
        ttl <= 0,
        now <= later,
    ensures
        spec_lookup(
            store.insert(encoded_key(ns, key_json), (value_json, now + ttl)),
            encoded_key(ns, key_json),
            later,
        ) is None,
{
}

/// Namespace isolation: two handles whose namespaces differ and avoid the
/// ':' delimiter never produce the same encoded key, whatever the logical
/// keys, so an insert through one is invisible to lookups through the
/// other.
pub proof fn lemma_namespace_isolation(
    store: Map<Seq<char>, (Seq<char>, int)>,
    ns_a: Seq<char>,
    key_a: Seq<char>,
    ns_b: Seq<char>,
    key_b: Seq<char>,
    entry: (Seq<char>, int),
    now: int,
)
    requires
        ns_a != ns_b,
        !ns_a.contains(':'),
        !ns_b.contains(':'),
    ensures
        encoded_key(ns_a, key_a) != encoded_key(ns_b, key_b),
        spec_lookup(
            store.insert(encoded_key(ns_a, key_a), entry),
            encoded_key(ns_b, key_b),
            now,
        ) == spec_lookup(store, encoded_key(ns_b, key_b), now),
{
    let ea = encoded_key(ns_a, key_a);
    let eb = encoded_key(ns_b, key_b);
    if ea == eb {
        if ns_a.len() < ns_b.len() {
            assert(ea[ns_a.len() as int] == ':');
            assert(eb[ns_a.len() as int] == ns_b[ns_a.len() as int]);
            assert(ns_b.contains(':'));
        } else if ns_b.len() < ns_a.len() {
            assert(eb[ns_b.len() as int] == ':');
            assert(ea[ns_b.len() as int] == ns_a[ns_b.len() as int]);
            assert(ns_a.contains(':'));
        } else {
            assert forall|i: int| 0 <= i < ns_a.len() implies ns_a[i] == ns_b[i] by {
                assert(ea[i] == ns_a[i]);
                assert(eb[i] == ns_b[i]);
            }
            assert(ns_a =~= ns_b);
        }
    }
}

/// Structured keys: under one namespace, two logical keys hit the same
/// entry exactly when their serialized forms agree; a lookup under a
/// differing serialized form misses the insert entirely.
pub proof fn lemma_key_identity(
    store: Map<Seq<char>, (Seq<char>, int)>,
    ns: Seq<char>,
    key_a: Seq<char>,
    key_b: Seq<char>,
    entry: (Seq<char>, int),
    now: int,
)
    ensures
        encoded_key(ns, key_a) == encoded_key(ns, key_b) <==> key_a == key_b,
        key_a == key_b ==> spec_lookup(
            store.insert(encoded_key(ns, key_a), entry),
            encoded_key(ns, key_b),
            now,
        ) == (if entry.1 > now {
            Some(entry.0)
        } else {
            None
        }),
        key_a != key_b ==> spec_lookup(
            store.insert(encoded_key(ns, key_a), entry),
            encoded_key(ns, key_b),
            now,
        ) == spec_lookup(store, encoded_key(ns, key_b), now),
{
    if encoded_key(ns, key_a) == encoded_key(ns, key_b) {
        assert(encoded_key(ns, key_a).len() == ns.len() + 1 + key_a.len());
        assert(encoded_key(ns, key_b).len() == ns.len() + 1 + key_b.len());
        assert(key_a.len() == key_b.len());
        assert forall|i: int| 0 <= i < key_a.len() implies key_a[i] == key_b[i] by {
            assert(encoded_key(ns, key_a)[ns.len() + 1 + i] == key_a[i]);
            assert(encoded_key(ns, key_b)[ns.len() + 1 + i] == key_b[i]);
        }
        assert(key_a =~= key_b);
    }
}

/// Overwrite: inserting twice under the same encoded key leaves exactly
/// the second entry, value and expiry both, and a lookup after the
/// overwrite returns the newest value whenever its lifetime is positive.
pub proof fn lemma_overwrite(
    store: Map<Seq<char>, (Seq<char>, int)>,
    ns: Seq<char>,
    key_json: Seq<char>,
    value_a: Seq<char>,
    expiring_a: int,
    value_b: Seq<char>,
    ttl_b: int,
    now: int,
)
    requires
        ttl_b > 0,
    ensures
        store.insert(encoded_key(ns, key_json), (value_a, expiring_a)).insert(
            encoded_key(ns, key_json),
            (value_b, now + ttl_b),
        ) == store.insert(encoded_key(ns, key_json), (value_b, now + ttl_b)),
        spec_lookup(
            store.insert(encoded_key(ns, key_json), (value_a, expiring_a)).insert(
                encoded_key(ns, key_json),
                (value_b, now + ttl_b),
            ),
            encoded_key(ns, key_json),
            now,
        ) == Some(value_b),
{
    let ek = encoded_key(ns, key_json);
    assert(store.insert(ek, (value_a, expiring_a)).insert(ek, (value_b, now + ttl_b))
        =~= store.insert(ek, (value_b, now + ttl_b)));
}

/// Absent key: a lookup under an encoded key the store has never held
/// reports it absent, at every instant.
pub proof fn lemma_absent(
    store: Map<Seq<char>, (Seq<char>, int)>,
    ns: Seq<char>,
    key_json: Seq<char>,
    now: int,
)
    requires
        !store.contains_key(encoded_key(ns, key_json)),
    ensures
        spec_lookup(store, encoded_key(ns, key_json), now) is None,
{
}

} // verus!
