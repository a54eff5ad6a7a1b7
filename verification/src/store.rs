//! The attribute payload of an event: a string-to-string mapping with
//! unique keys, kept in insertion order so that wire conversions are
//! reproducible.

use vstd::prelude::*;

verus! {

/// The mapping described by a sequence of (key, value) entries, reading
/// them in order with a later entry overwriting an earlier one.
pub open spec fn kv_map_of(s: Seq<(String, String)>) -> Map<Seq<char>, Seq<char>>
    decreases s.len(),
{
    if s.len() == 0 {
        Map::empty()
    } else {
        kv_map_of(s.drop_last()).insert(s.last().0@, s.last().1@)
    }
}

/// No two entries of the sequence share a key.
pub open spec fn keys_unique(s: Seq<(String, String)>) -> bool {
    forall|i: int, j: int| 0 <= i < j < s.len() ==> s[i].0@ != s[j].0@
}

pub proof fn lemma_keys_unique_drop_last(s: Seq<(String, String)>)
    requires
        keys_unique(s),
        s.len() > 0,
    ensures
        keys_unique(s.drop_last()),
{
    assert forall|i: int, j: int| 0 <= i < j < s.drop_last().len() implies s.drop_last()[i].0@
        != s.drop_last()[j].0@ by {
        assert(s.drop_last()[i] == s[i]);
        assert(s.drop_last()[j] == s[j]);
    }
}

/// A key is in the described map exactly when some entry carries it.
pub proof fn lemma_kv_map_domain(s: Seq<(String, String)>, k: Seq<char>)
    ensures
        kv_map_of(s).contains_key(k) <==> exists|i: int| 0 <= i < s.len() && s[i].0@ == k,
    decreases s.len(),
{
    if s.len() > 0 {
        lemma_kv_map_domain(s.drop_last(), k);
        if s.last().0@ == k {
            assert(s[s.len() - 1].0@ == k);
        } else {
            if exists|i: int| 0 <= i < s.len() && s[i].0@ == k {
                let i = choose|i: int| 0 <= i < s.len() && s[i].0@ == k;
                assert(s.drop_last()[i] == s[i]);
            }
            if exists|i: int| 0 <= i < s.drop_last().len() && s.drop_last()[i].0@ == k {
                let i = choose|i: int| 0 <= i < s.drop_last().len() && s.drop_last()[i].0@ == k;
                assert(s[i] == s.drop_last()[i]);
            }
        }
    }
}

/// With unique keys, the entry holding a key gives its value in the map.
pub proof fn lemma_kv_map_index(s: Seq<(String, String)>, i: int)
    requires
        keys_unique(s),
        0 <= i < s.len(),
    ensures
        kv_map_of(s).contains_key(s[i].0@),
        kv_map_of(s)[s[i].0@] == s[i].1@,
    decreases s.len(),
{
    if i == s.len() - 1 {
    } else {
        lemma_keys_unique_drop_last(s);
        lemma_kv_map_index(s.drop_last(), i);
        assert(s.drop_last()[i] == s[i]);
        assert(s[i].0@ != s[s.len() - 1].0@);
    }
}

/// Appending a fresh entry inserts its pair into the map.
pub proof fn lemma_kv_map_push(s: Seq<(String, String)>, p: (String, String))
    ensures
        kv_map_of(s.push(p)) == kv_map_of(s).insert(p.0@, p.1@),
{
    assert(s.push(p).drop_last() =~= s);
    assert(s.push(p).last() == p);
}

/// Overwriting the entry that holds a key updates that key in the map.
pub proof fn lemma_kv_map_update(s: Seq<(String, String)>, i: int, p: (String, String))
    requires
        keys_unique(s),
        0 <= i < s.len(),
        p.0@ == s[i].0@,
    ensures
        kv_map_of(s.update(i, p)) == kv_map_of(s).insert(p.0@, p.1@),
    decreases s.len(),
{
    let s2 = s.update(i, p);
    if i == s.len() - 1 {
        assert(s2.drop_last() =~= s.drop_last());
        assert(s2.last() == p);
        assert(kv_map_of(s.drop_last()).insert(s.last().0@, s.last().1@).insert(p.0@, p.1@)
            =~= kv_map_of(s.drop_last()).insert(p.0@, p.1@));
    } else {
        lemma_keys_unique_drop_last(s);
        assert(s.drop_last()[i] == s[i]);
        lemma_kv_map_update(s.drop_last(), i, p);
        assert(s2.drop_last() =~= s.drop_last().update(i, p));
        assert(s2.last() == s.last());
        assert(s[i].0@ != s[s.len() - 1].0@);
        assert(kv_map_of(s.drop_last()).insert(p.0@, p.1@).insert(s.last().0@, s.last().1@)
            =~= kv_map_of(s.drop_last()).insert(s.last().0@, s.last().1@).insert(p.0@, p.1@));
    }
}

/// Removing the entry that holds a key removes that key from the map.
pub proof fn lemma_kv_map_remove(s: Seq<(String, String)>, i: int)
    requires
        keys_unique(s),
        0 <= i < s.len(),
    ensures
        kv_map_of(s.remove(i)) == kv_map_of(s).remove(s[i].0@),
    decreases s.len(),
{
    let k = s[i].0@;
    if i == s.len() - 1 {
        assert(s.remove(i) =~= s.drop_last());
        lemma_kv_map_domain(s.drop_last(), k);
        assert forall|j: int| 0 <= j < s.drop_last().len() implies s.drop_last()[j].0@ != k by {
            assert(s.drop_last()[j] == s[j]);
        }
        assert(!kv_map_of(s.drop_last()).contains_key(k));
        assert(kv_map_of(s.drop_last()).insert(k, s.last().1@).remove(k) =~= kv_map_of(
            s.drop_last(),
        ));
    } else {
        lemma_keys_unique_drop_last(s);
        assert(s.drop_last()[i] == s[i]);
        lemma_kv_map_remove(s.drop_last(), i);
        assert(s.remove(i).drop_last() =~= s.drop_last().remove(i));
        assert(s.remove(i).last() == s.last());
        assert(s[i].0@ != s[s.len() - 1].0@);
        assert(kv_map_of(s.drop_last()).remove(k).insert(s.last().0@, s.last().1@) =~= kv_map_of(
            s.drop_last(),
        ).insert(s.last().0@, s.last().1@).remove(k));
    }
}

/// Keys stay unique when an entry is replaced by one with the same key.
proof fn lemma_keys_unique_update(s: Seq<(String, String)>, i: int, p: (String, String))
    requires
        keys_unique(s),
        0 <= i < s.len(),
        p.0@ == s[i].0@,
    ensures
        keys_unique(s.update(i, p)),
{
    let s2 = s.update(i, p);
    assert forall|m: int, n: int| 0 <= m < n < s2.len() implies s2[m].0@ != s2[n].0@ by {
        assert(s2[m].0@ == s[m].0@);
        assert(s2[n].0@ == s[n].0@);
    }
}

/// Keys stay unique when an entry is removed.
proof fn lemma_keys_unique_remove(s: Seq<(String, String)>, i: int)
    requires
        keys_unique(s),
        0 <= i < s.len(),
    ensures
        keys_unique(s.remove(i)),
{
    let s2 = s.remove(i);
    assert forall|m: int, n: int| 0 <= m < n < s2.len() implies s2[m].0@ != s2[n].0@ by {
        let m0: int = if m < i {
            m
        } else {
            m + 1
        };
        let n0: int = if n < i {
            n
        } else {
            n + 1
        };
        assert(s2[m] == s[m0]);
        assert(s2[n] == s[n0]);
    }
}

/// Write-then-read: after a value is written under a key, the key is
/// reported present and reading it yields exactly the written value.
/// This ties `set`, whose effect is the map insertion below, to `get`,
/// `get_required` and `contains_key`, which read that map.
pub proof fn lemma_write_then_read(m: Map<Seq<char>, Seq<char>>, key: Seq<char>, value: Seq<char>)
    ensures
        m.insert(key, value).contains_key(key),
        m.insert(key, value)[key] == value,
{
}

/// Ordered-irrelevant mapping from attribute name to string value, the
/// payload container of an event. Keys are unique; entries are kept in
/// insertion order so a single conversion to the wire shape is
/// deterministic.
#[derive(Debug)]
pub struct AttributeStore {
    pairs: Vec<(String, String)>,
}

impl View for AttributeStore {
    type V = Map<Seq<char>, Seq<char>>;

    open spec fn view(&self) -> Map<Seq<char>, Seq<char>> {
        kv_map_of(self.entries())
    }
}

/// Index of the entry of `pairs` that holds `key`, if any.
fn position_of(pairs: &Vec<(String, String)>, key: &String) -> (r: Option<usize>)
    ensures
        match r {
            Some(i) => i < pairs@.len() && pairs@[i as int].0@ == key@,
            None => forall|i: int| 0 <= i < pairs@.len() ==> pairs@[i].0@ != key@,
        },
{
    let n: usize = pairs.len();
    let mut i: usize = 0;
    while i < n
        invariant
            n == pairs@.len(),
            i <= n,
            forall|j: int| 0 <= j < i ==> pairs@[j].0@ != key@,
        decreases n - i,
    {
        if pairs[i].0 == *key {
            return Some(i);
        }
        i = i + 1;
    }
    None
}

impl AttributeStore {
    /// The (key, value) entries in insertion order.
    pub closed spec fn entries(&self) -> Seq<(String, String)> {
        self.pairs@
    }

    #[verifier::type_invariant]
    spec fn wf(self) -> bool {
        keys_unique(self.pairs@)
    }

    /// An empty store.
    pub fn new() -> (r: AttributeStore)
        ensures
            r@ == Map::<Seq<char>, Seq<char>>::empty(),
            r.entries().len() == 0,
    {
        AttributeStore { pairs: Vec::new() }
    }

    /// How many attributes the store holds.
    pub fn len(&self) -> (r: usize)
        ensures
            r == self.entries().len(),
    {
        self.pairs.len()
    }

    /// The key of the entry at position `i`, in insertion order.
    pub fn key_at(&self, i: usize) -> (r: &String)
        requires
            i < self.entries().len(),
        ensures
            *r == self.entries()[i as int].0,
    {
        &self.pairs[i].0
    }

    /// The value of the entry at position `i`, in insertion order.
    pub fn value_at(&self, i: usize) -> (r: &String)
        requires
            i < self.entries().len(),
        ensures
            *r == self.entries()[i as int].1,
    {
        &self.pairs[i].1
    }

    /// Whether an attribute named `key` is present. Total: the safe way to
    /// probe for presence.
    pub fn contains_key(&self, key: &str) -> (r: bool)
        ensures
            r == self@.contains_key(key@),
    {
        let key_s: String = key.to_owned();
        let r = position_of(&self.pairs, &key_s);
        proof {
            lemma_kv_map_domain(self.pairs@, key@);
        }
        r.is_some()
    }

    /// The value stored under `key`, if any. Total: the safe way to read
    /// when presence is not already guaranteed.
    pub fn get(&self, key: &str) -> (r: Option<&String>)
        ensures
            match r {
                Some(v) => self@.contains_key(key@) && v@ == self@[key@],
                None => !self@.contains_key(key@),
            },
    {
        let key_s: String = key.to_owned();
        match position_of(&self.pairs, &key_s) {
            Some(i) => {
                proof {
                    use_type_invariant(&*self);
                    lemma_kv_map_index(self.pairs@, i as int);
                }
                Some(&self.pairs[i].1)
            },
            None => {
                proof {
                    lemma_kv_map_domain(self.pairs@, key@);
                }
                None
            },
        }
    }

    /// The value stored under a key that is known to be present. Reading a
    /// key that may be absent must go through `get` or `contains_key`
    /// instead.
    pub fn get_required(&self, key: &str) -> (r: &String)
        requires
            self@.contains_key(key@),
        ensures
            r@ == self@[key@],
    {
        let key_s: String = key.to_owned();
        match position_of(&self.pairs, &key_s) {
            Some(i) => {
                proof {
                    use_type_invariant(&*self);
                    lemma_kv_map_index(self.pairs@, i as int);
                }
                &self.pairs[i].1
            },
            None => {
                proof {
                    lemma_kv_map_domain(self.pairs@, key@);
                    assert(false);
                }
                vstd::pervasive::unreached()
            },
        }
    }

    /// Write `value` under `key`, inserting the key if it is absent and
    /// overwriting its value if it is present.
    pub fn set(&mut self, key: &str, value: String)
        ensures
            final (self)@ == old(self)@.insert(key@, value@),
    {
        proof {
            use_type_invariant(&*self);
        }
        let key_s: String = key.to_owned();
        let ghost p: (String, String) = (key_s, value);
        let mut pairs: Vec<(String, String)> = Vec::new();
        core::mem::swap(&mut pairs, &mut self.pairs);
        match position_of(&pairs, &key_s) {
            Some(i) => {
                proof {
                    lemma_kv_map_update(pairs@, i as int, p);
                    lemma_keys_unique_update(pairs@, i as int, p);
                }
                pairs[i] = (key_s, value);
            },
            None => {
                proof {
                    lemma_kv_map_push(pairs@, p);
                }
                pairs.push((key_s, value));
            },
        }
        self.pairs = pairs;
    }

    /// Remove the entry under `key`, handing its value to the caller.
    pub fn remove(&mut self, key: &str) -> (r: Option<String>)
        ensures
            final (self)@ == old(self)@.remove(key@),
            match r {
                Some(v) => old(self)@.contains_key(key@) && v@ == old(self)@[key@],
                None => !old(self)@.contains_key(key@),
            },
    {
        proof {
            use_type_invariant(&*self);
        }
        let key_s: String = key.to_owned();
        let mut pairs: Vec<(String, String)> = Vec::new();
        core::mem::swap(&mut pairs, &mut self.pairs);
        match position_of(&pairs, &key_s) {
            Some(i) => {
                proof {
                    lemma_kv_map_index(pairs@, i as int);
                    lemma_kv_map_remove(pairs@, i as int);
                    lemma_keys_unique_remove(pairs@, i as int);
                }
                let pair = pairs.remove(i);
                self.pairs = pairs;
                Some(pair.1)
            },
            None => {
                proof {
                    lemma_kv_map_domain(pairs@, key@);
                    assert(kv_map_of(pairs@).remove(key@) =~= kv_map_of(pairs@));
                }
                self.pairs = pairs;
                None
            },
        }
    }
}

} // verus!
