//! The shared store: one mapping from encoded key to cache entry.
//!
//! The store is modelled as a `Map<Seq<char>, (Seq<char>, int)>` taking each
//! encoded key to the stored serialized value and its expiration instant.
//! It is backed by an association list whose keys are pairwise distinct.

use vstd::prelude::*;

verus! {

/// One stored value: the serialized form of the cached payload, and the
/// absolute instant (seconds since the Unix epoch, UTC) after which the
/// entry is considered stale.
pub struct CacheEntry {
    pub value: String,
    pub expiring: i64,
}

impl View for CacheEntry {
    type V = (Seq<char>, int);

    open spec fn view(&self) -> (Seq<char>, int) {
        (self.value@, self.expiring as int)
    }
}

/// The process-wide mapping from encoded key to entry. It is constructed
/// explicitly and handed to every operation, so independent stores can
/// coexist; entries persist until overwritten, never removed proactively.
pub struct Store {
    entries: Vec<(String, CacheEntry)>,
}

spec fn map_of(s: Seq<(String, CacheEntry)>) -> Map<Seq<char>, (Seq<char>, int)>
    decreases s.len(),
{
    if s.len() == 0 {
        Map::empty()
    } else {
        map_of(s.drop_last()).insert(s.last().0@, s.last().1@)
    }
}

spec fn keys_distinct(s: Seq<(String, CacheEntry)>) -> bool {
    forall|i: int, j: int| 0 <= i < j < s.len() ==> s[i].0@ != s[j].0@
}

proof fn lemma_map_of_contains(s: Seq<(String, CacheEntry)>, k: Seq<char>)
    ensures
        map_of(s).contains_key(k) <==> (exists|i: int| 0 <= i < s.len() && s[i].0@ == k),
    decreases s.len(),
{
    if s.len() > 0 {
        lemma_map_of_contains(s.drop_last(), k);
        if s.last().0@ == k {
            assert(s[s.len() - 1].0@ == k);
        } else if exists|i: int| 0 <= i < s.len() && s[i].0@ == k {
            let i = choose|i: int| 0 <= i < s.len() && s[i].0@ == k;
            assert(s.drop_last()[i].0@ == k);
        }
    }
}

proof fn lemma_map_of_index(s: Seq<(String, CacheEntry)>, i: int)
    requires
        keys_distinct(s),
        0 <= i < s.len(),
    ensures
        map_of(s).contains_key(s[i].0@),
        map_of(s)[s[i].0@] == s[i].1@,
    decreases s.len(),
{
    if i < s.len() - 1 {
        assert(keys_distinct(s.drop_last()));
        lemma_map_of_index(s.drop_last(), i);
        assert(s[i].0@ != s.last().0@);
    }
}

proof fn lemma_map_of_update(s: Seq<(String, CacheEntry)>, i: int, p: (String, CacheEntry))
    requires
        keys_distinct(s),
        0 <= i < s.len(),
        p.0@ == s[i].0@,
    ensures
        map_of(s.update(i, p)) == map_of(s).insert(p.0@, p.1@),
        keys_distinct(s.update(i, p)),
    decreases s.len(),
{
    let t = s.update(i, p);
    if i == s.len() - 1 {
        assert(t.drop_last() =~= s.drop_last());
        assert(t.last() == p);
        assert(map_of(t) == map_of(s.drop_last()).insert(p.0@, p.1@));
        assert(map_of(s.drop_last()).insert(s.last().0@, s.last().1@).insert(p.0@, p.1@)
            =~= map_of(s.drop_last()).insert(p.0@, p.1@));
    } else {
        assert(keys_distinct(s.drop_last()));
        lemma_map_of_update(s.drop_last(), i, p);
        assert(t.drop_last() =~= s.drop_last().update(i, p));
        assert(t.last() == s.last());
        assert(p.0@ != s.last().0@);
        assert(map_of(s).insert(p.0@, p.1@)
            =~= map_of(s.drop_last()).insert(p.0@, p.1@).insert(s.last().0@, s.last().1@));
    }
}

impl View for Store {
    type V = Map<Seq<char>, (Seq<char>, int)>;

    closed spec fn view(&self) -> Map<Seq<char>, (Seq<char>, int)> {
        map_of(self.entries@)
    }
}

impl Store {
    #[verifier::type_invariant]
    spec fn wf(&self) -> bool {
        keys_distinct(self.entries@)
    }

    /// An empty store. Each store is independent: the caller chooses how
    /// widely one instance is shared.
    pub fn new() -> (r: Store)
        ensures
            r@ == Map::<Seq<char>, (Seq<char>, int)>::empty(),
    {
        Store { entries: Vec::new() }
    }

    /// The entry stored under `key`, stale or not, if any.
    pub fn lookup(&self, key: &String) -> (r: Option<&CacheEntry>)
        ensures
            match r {
                Some(e) => self@.contains_key(key@) && e@ == self@[key@],
                None => !self@.contains_key(key@),
            },
    {
        proof {
            use_type_invariant(&*self);
            lemma_map_of_contains(self.entries@, key@);
        }
        let n = self.entries.len();
        let mut i: usize = 0;
        while i < n
            invariant
                n == self.entries@.len(),
                forall|j: int| 0 <= j < i ==> self.entries@[j].0@ != key@,
            decreases n - i,
        {
            if self.entries[i].0 == *key {
                proof {
                    use_type_invariant(&*self);
                    lemma_map_of_index(self.entries@, i as int);
                }
                return Some(&self.entries[i].1);
            }
            i += 1;
        }
        None
    }

    /// Insert-or-replace: after the call the store maps `key` to `entry`
    /// and every other key to what it held before.
    pub fn put(&mut self, key: String, entry: CacheEntry)
        ensures
            final(self)@ == old(self)@.insert(key@, entry@),
    {
        proof {
            use_type_invariant(&*self);
        }
        let mut entries: Vec<(String, CacheEntry)> = Vec::new();
        std::mem::swap(&mut entries, &mut self.entries);
        let ghost s0 = entries@;
        let n = entries.len();
        let mut i: usize = 0;
        while i < n
            invariant
                entries@ == s0,
                s0 == old(self).entries@,
                keys_distinct(s0),
                n == s0.len(),
                forall|j: int| 0 <= j < i ==> s0[j].0@ != key@,
            decreases n - i,
        {
            if entries[i].0 == key {
                let ghost p = (key, entry);
                proof {
                    lemma_map_of_update(s0, i as int, p);
                }
                entries[i] = (key, entry);
                self.entries = entries;
                return;
            }
            i += 1;
        }
        let ghost k = key@;
        let ghost e = entry@;
        entries.push((key, entry));
        proof {
            assert(entries@.drop_last() =~= s0);
            assert(map_of(entries@) == map_of(s0).insert(k, e));
        }
        self.entries = entries;
    }
}

} // verus!
