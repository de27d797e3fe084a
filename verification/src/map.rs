//! A deduplicating map for storing possibly redundant arguments.
use vstd::prelude::*;

use vstd::std_specs::cmp::PartialEqSpec;

use crate::syntax::Spanned;
use crate::{ErrorKind, TypesetError};

verus! {

/// Whether the `==` of a key type is known to Verus and agrees with
/// structural equality; the map's reasoning depends on both.
pub open spec fn eq_structural<K: PartialEq>() -> bool {
    &&& <K as PartialEqSpec>::obeys_eq_spec()
    &&& forall|a: K, b: K| #[trigger] a.eq_spec(&b) <==> a == b
}

/// Whether no two entries of a pair sequence share a key.
pub open spec fn keys_distinct<K, V>(s: Seq<(K, V)>) -> bool {
    forall|i: int, j: int| 0 <= i < j < s.len() ==> (#[trigger] s[i]).0 != (#[trigger] s[j]).0
}

/// The map that a pair sequence denotes, later entries overwriting earlier
/// ones.
pub open spec fn entries_map<K, V>(s: Seq<(K, V)>) -> Map<K, V>
    decreases s.len(),
{
    if s.len() == 0 {
        Map::empty()
    } else {
        entries_map(s.drop_last()).insert(s.last().0, s.last().1)
    }
}

/// A key is in the denoted map exactly when some entry holds it, and under
/// distinct keys each entry's value is the one the map gives its key.
pub proof fn lemma_entries_map_props<K, V>(s: Seq<(K, V)>)
    ensures
        forall|k: K| entries_map(s).contains_key(k) <==> exists|i: int|
            0 <= i < s.len() && (#[trigger] s[i]).0 == k,
        keys_distinct(s) ==> forall|i: int| 0 <= i < s.len() ==> entries_map(s).contains_key(
            (#[trigger] s[i]).0,
        ) && entries_map(s)[s[i].0] == s[i].1,
    decreases s.len(),
{
    if s.len() > 0 {
        lemma_entries_map_props(s.drop_last());
        assert forall|k: K| entries_map(s).contains_key(k) implies exists|i: int|
            0 <= i < s.len() && (#[trigger] s[i]).0 == k by {
            if s.last().0 == k {
                assert(s[s.len() - 1].0 == k);
            } else {
                assert(entries_map(s.drop_last()).contains_key(k));
                let i = choose|i: int|
                    0 <= i < s.drop_last().len() && (#[trigger] s.drop_last()[i]).0 == k;
                assert(s.drop_last()[i] == s[i]);
                assert(s[i].0 == k);
            }
        }
        assert forall|i: int| 0 <= i < s.len() implies entries_map(s).contains_key(
            (#[trigger] s[i]).0,
        ) by {
            if i < s.len() - 1 {
                assert(s.drop_last()[i] == s[i]);
                assert(exists|j: int|
                    0 <= j < s.drop_last().len() && (#[trigger] s.drop_last()[j]).0 == s[i].0);
                assert(entries_map(s.drop_last()).contains_key(s[i].0));
            }
        }
        if keys_distinct(s) {
            assert forall|i: int| 0 <= i < s.len() implies entries_map(s)[(#[trigger] s[i]).0]
                == s[i].1 by {
                if i < s.len() - 1 {
                    assert(s.drop_last()[i] == s[i]);
                    assert(s[i].0 != s.last().0);
                }
            }
        }
    }
}

/// Removing one entry of a distinct-keyed sequence removes exactly its key
/// from the denoted map.
pub proof fn lemma_entries_map_remove<K, V>(s: Seq<(K, V)>, i: int)
    requires
        keys_distinct(s),
        0 <= i < s.len(),
    ensures
        entries_map(s.remove(i)) == entries_map(s).remove(s[i].0),
    decreases s.len(),
{
    lemma_entries_map_props(s);
    lemma_entries_map_props(s.drop_last());
    if i == s.len() - 1 {
        assert(s.remove(i) =~= s.drop_last());
        assert(!entries_map(s.drop_last()).contains_key(s[i].0)) by {
            if entries_map(s.drop_last()).contains_key(s[i].0) {
                let j = choose|j: int|
                    0 <= j < s.len() - 1 && (#[trigger] s.drop_last()[j]).0 == s[i].0;
                assert(s[j].0 == s[i].0);
            }
        }
        assert(entries_map(s.remove(i)) =~= entries_map(s).remove(s[i].0));
    } else {
        let dl = s.drop_last();
        lemma_entries_map_remove(dl, i);
        assert(s.remove(i) =~= dl.remove(i).push(s.last()));
        assert(s.remove(i).drop_last() =~= dl.remove(i));
        assert(entries_map(s.remove(i)) == entries_map(dl.remove(i)).insert(
            s.last().0,
            s.last().1,
        ));
        assert(s[i].0 != s.last().0);
        assert(entries_map(dl).remove(s[i].0).insert(s.last().0, s.last().1) =~= entries_map(
            dl,
        ).insert(s.last().0, s.last().1).remove(s[i].0));
    }
}

/// A deduplicating map type useful for storing possibly redundant arguments:
/// at most one binding per key, `add` overwriting with last-write-wins.
#[verifier::reject_recursive_types(K)]
#[derive(Debug, Clone)]
pub struct ConsistentMap<K, V> {
    entries: Vec<(K, V)>,
}

impl<K, V> View for ConsistentMap<K, V> {
    type V = Map<K, V>;

    closed spec fn view(&self) -> Map<K, V> {
        entries_map(self.entries@)
    }
}

/// Find the index of the entry holding a key, if any.
fn position_of<K: PartialEq, V>(entries: &Vec<(K, V)>, key: &K) -> (r: Option<usize>)
    requires
        eq_structural::<K>(),
    ensures
        match r {
            Some(i) => 0 <= i < entries@.len() && entries@[i as int].0 == *key,
            None => forall|i: int| 0 <= i < entries@.len() ==> (#[trigger] entries@[i]).0 != *key,
        },
{
    let mut i: usize = 0;
    while i < entries.len()
        invariant
            eq_structural::<K>(),
            0 <= i <= entries@.len(),
            forall|j: int| 0 <= j < i ==> (#[trigger] entries@[j]).0 != *key,
        decreases entries@.len() - i,
    {
        if entries[i].0 == *key {
            return Some(i);
        }
        i = i + 1;
    }
    None
}

impl<K: PartialEq, V> ConsistentMap<K, V> {
    /// The entries never hold two bindings of one key.
    pub closed spec fn wf(&self) -> bool {
        keys_distinct(self.entries@)
    }

    /// Create an empty map.
    pub fn new() -> (r: ConsistentMap<K, V>)
        ensures
            r@ == Map::<K, V>::empty(),
            r.wf(),
    {
        ConsistentMap { entries: Vec::new() }
    }

    /// Add a key-value pair, unconditionally overwriting any existing
    /// binding for the key: last write wins, and the call itself never
    /// fails.
    pub fn add(&mut self, key: K, value: V) -> (r: Result<(), TypesetError>)
        requires
            old(self).wf(),
            eq_structural::<K>(),
        ensures
            r is Ok,
            final(self).wf(),
            final(self)@ == old(self)@.insert(key, value),
    {
        proof {
            lemma_entries_map_props(self.entries@);
        }
        let ghost s0 = self.entries@;
        match position_of(&self.entries, &key) {
            Some(i) => {
                proof {
                    lemma_entries_map_remove(s0, i as int);
                }
                self.entries.remove(i);
                proof {
                    assert forall|a: int, b: int|
                        0 <= a < b < self.entries@.len() implies (#[trigger] self.entries@[a]).0
                        != (#[trigger] self.entries@[b]).0 by {
                        let a0 = if a < i as int { a } else { a + 1 };
                        let b0 = if b < i as int { b } else { b + 1 };
                        assert(self.entries@[a] == s0[a0]);
                        assert(self.entries@[b] == s0[b0]);
                    }
                    assert forall|j: int| 0 <= j < self.entries@.len() implies (
                    #[trigger] self.entries@[j]).0 != key by {
                        let j0 = if j < i as int { j } else { j + 1 };
                        assert(self.entries@[j] == s0[j0]);
                    }
                }
                let ghost s1 = self.entries@;
                self.entries.push((key, value));
                proof {
                    assert(self.entries@.drop_last() =~= s1);
                    assert(entries_map(self.entries@) =~= entries_map(s0).insert(key, value));
                }
            },
            None => {
                self.entries.push((key, value));
                proof {
                    assert(self.entries@.drop_last() =~= s0);
                }
            },
        }
        Ok(())
    }

    /// Add a key-value pair if the value is not `None`.
    pub fn add_opt(&mut self, key: K, value: Option<V>) -> (r: Result<(), TypesetError>)
        requires
            old(self).wf(),
            eq_structural::<K>(),
        ensures
            r is Ok,
            final(self).wf(),
            match value {
                Some(v) => final(self)@ == old(self)@.insert(key, v),
                None => final(self)@ == old(self)@,
            },
    {
        match value {
            Some(v) => self.add(key, v),
            None => Ok(()),
        }
    }

    /// Add a key-spanned-value pair if the value is not `None`, dropping
    /// the span.
    pub fn add_opt_span(&mut self, key: K, value: Option<Spanned<V>>) -> (r: Result<
        (),
        TypesetError,
    >)
        requires
            old(self).wf(),
            eq_structural::<K>(),
        ensures
            r is Ok,
            final(self).wf(),
            match value {
                Some(sv) => final(self)@ == old(self)@.insert(key, sv.v),
                None => final(self)@ == old(self)@,
            },
    {
        match value {
            Some(spanned) => self.add(key, spanned.v),
            None => Ok(()),
        }
    }

    /// Look up the value bound to a key.
    pub fn get(&self, key: &K) -> (r: Option<&V>)
        requires
            self.wf(),
            eq_structural::<K>(),
        ensures
            match r {
                Some(v) => self@.contains_key(*key) && *v == self@[*key],
                None => !self@.contains_key(*key),
            },
    {
        proof {
            lemma_entries_map_props(self.entries@);
        }
        match position_of(&self.entries, key) {
            Some(i) => Some(&self.entries[i].1),
            None => None,
        }
    }

    /// Remove a key's binding, handing its value back.
    pub fn remove(&mut self, key: &K) -> (r: Option<V>)
        requires
            old(self).wf(),
            eq_structural::<K>(),
        ensures
            final(self).wf(),
            final(self)@ == old(self)@.remove(*key),
            match r {
                Some(v) => old(self)@.contains_key(*key) && v == old(self)@[*key],
                None => !old(self)@.contains_key(*key),
            },
    {
        proof {
            lemma_entries_map_props(self.entries@);
        }
        let ghost s0 = self.entries@;
        match position_of(&self.entries, key) {
            Some(i) => {
                proof {
                    lemma_entries_map_remove(s0, i as int);
                }
                let (_k, v) = self.entries.remove(i);
                proof {
                    assert forall|a: int, b: int|
                        0 <= a < b < self.entries@.len() implies (#[trigger] self.entries@[a]).0
                        != (#[trigger] self.entries@[b]).0 by {
                        let a0 = if a < i as int { a } else { a + 1 };
                        let b0 = if b < i as int { b } else { b + 1 };
                        assert(self.entries@[a] == s0[a0]);
                        assert(self.entries@[b] == s0[b0]);
                    }
                }
                Some(v)
            },
            None => {
                proof {
                    assert(entries_map(s0).remove(*key) =~= entries_map(s0));
                }
                None
            },
        }
    }

    /// Call a function with the value if the key is present.
    pub fn with<F: FnOnce(&V)>(&self, key: K, callback: F)
        requires
            self.wf(),
            eq_structural::<K>(),
            forall|v: &V| #[trigger] callback.requires((v,)),
        ensures
            self@.contains_key(key) ==> exists|v: &V|
                *v == self@[key] && #[trigger] callback.ensures((v,), ()),
    {
        match self.get(&key) {
            Some(value) => callback(value),
            None => (),
        }
    }

    /// The (key, value) pairs, in insertion order; callers walk the
    /// returned vector.
    pub fn iter(&self) -> (r: &Vec<(K, V)>)
        requires
            self.wf(),
        ensures
            keys_distinct(r@),
            entries_map(r@) == self@,
            forall|i: int| 0 <= i < r@.len() ==> self@.contains_key((#[trigger] r@[i]).0)
                && self@[r@[i].0] == r@[i].1,
    {
        proof {
            lemma_entries_map_props(self.entries@);
        }
        &self.entries
    }

    /// Create a new consistent map where keys and values are mapped to new
    /// keys and values. Returns an error if a new key is duplicate: a
    /// collision after remapping is reported, not silently overwritten,
    /// which deliberately differs from `add`'s overwrite policy.
    #[verifier::rlimit(60)]
    pub fn dedup<F, K2: PartialEq, V2>(&self, f: F) -> (r: Result<
        ConsistentMap<K2, V2>,
        TypesetError,
    >) where F: Fn(&K, &V) -> Result<(K2, V2), TypesetError>
        requires
            self.wf(),
            eq_structural::<K2>(),
            forall|k: &K, v: &V| #[trigger] f.requires((k, v)),
        ensures
            match r {
                Ok(m) => {
                    &&& m.wf()
                    &&& forall|k: K| self@.contains_key(k) ==> exists|p: (K2, V2)|
                        {
                            &&& #[trigger] f.ensures((&k, &self@[k]), Ok(p))
                            &&& m@.contains_key(p.0)
                            &&& m@[p.0] == p.1
                        }
                    &&& forall|k2: K2| m@.contains_key(k2) ==> exists|k: K|
                        {
                            &&& #[trigger] self@.contains_key(k)
                            &&& f.ensures((&k, &self@[k]), Ok((k2, m@[k2])))
                        }
                },
                Err(e) => {
                    ||| (e.kind == ErrorKind::DuplicateArgument && exists|
                        ka: K,
                        kb: K,
                        pa: (K2, V2),
                        pb: (K2, V2),
                    |
                        {
                            &&& self@.contains_key(ka)
                            &&& self@.contains_key(kb)
                            &&& ka != kb
                            &&& #[trigger] f.ensures((&ka, &self@[ka]), Ok(pa))
                            &&& #[trigger] f.ensures((&kb, &self@[kb]), Ok(pb))
                            &&& pa.0 == pb.0
                        })
                    ||| exists|k: K| #[trigger] self@.contains_key(k) && f.ensures(
                        (&k, &self@[k]),
                        Err(e),
                    )
                },
            },
    {
        proof {
            lemma_entries_map_props(self.entries@);
        }
        let ghost s = self.entries@;
        let mut out: Vec<(K2, V2)> = Vec::new();
        let mut i: usize = 0;
        while i < self.entries.len()
            invariant
                self.wf(),
                eq_structural::<K2>(),
                forall|k: &K, v: &V| #[trigger] f.requires((k, v)),
                s == self.entries@,
                self@ == entries_map(s),
                0 <= i <= s.len(),
                out@.len() == i,
                keys_distinct(out@),
                forall|ii: int| 0 <= ii < i ==> exists|j: int|
                    {
                        &&& 0 <= j < out@.len()
                        &&& f.ensures(
                            (&(#[trigger] s[ii]).0, &s[ii].1),
                            Ok(#[trigger] out@[j]),
                        )
                    },
                forall|j: int| 0 <= j < out@.len() ==> exists|si: int|
                    {
                        &&& 0 <= si < i
                        &&& f.ensures(
                            (&(#[trigger] s[si]).0, &s[si].1),
                            Ok(#[trigger] out@[j]),
                        )
                    },
            decreases s.len() - i,
        {
            let pair = &self.entries[i];
            match f(&pair.0, &pair.1) {
                Err(e) => {
                    proof {
                        lemma_entries_map_props(s);
                        assert(self@.contains_key(s[i as int].0) && f.ensures(
                            (&s[i as int].0, &self@[s[i as int].0]),
                            Err(e),
                        ));
                    }
                    return Err(e);
                },
                Ok((k2, v2)) => {
                    match position_of(&out, &k2) {
                        Some(j) => {
                            proof {
                                lemma_entries_map_props(s);
                                let si = choose|si: int|
                                    0 <= si < i && f.ensures(
                                        (&(#[trigger] s[si]).0, &s[si].1),
                                        Ok(out@[j as int]),
                                    );
                                assert(s[si].0 != s[i as int].0);
                                assert(self@.contains_key(s[si].0) && self@[s[si].0] == s[si].1);
                                assert(self@.contains_key(s[i as int].0) && self@[s[i as int].0]
                                    == s[i as int].1);
                                assert(f.ensures(
                                    (&s[si].0, &self@[s[si].0]),
                                    Ok(out@[j as int]),
                                ));
                                assert(f.ensures(
                                    (&s[i as int].0, &self@[s[i as int].0]),
                                    Ok((k2, v2)),
                                ));
                            }
                            return Err(
                                TypesetError::with_kind(
                                    ErrorKind::DuplicateArgument,
                                    "duplicate argument after remapping".to_string(),
                                    None,
                                ),
                            );
                        },
                        None => {
                            let ghost out0 = out@;
                            out.push((k2, v2));
                            proof {
                                assert(out@ =~= out0.push((k2, v2)));
                                assert forall|ii: int| 0 <= ii < i + 1 implies exists|j: int|
                                    {
                                        &&& 0 <= j < out@.len()
                                        &&& f.ensures(
                                            (&(#[trigger] s[ii]).0, &s[ii].1),
                                            Ok(#[trigger] out@[j]),
                                        )
                                    } by {
                                    if ii < i {
                                        let j = choose|j: int|
                                            0 <= j < out0.len() && f.ensures(
                                                (&(#[trigger] s[ii]).0, &s[ii].1),
                                                Ok(#[trigger] out0[j]),
                                            );
                                        assert(out@[j] == out0[j]);
                                    } else {
                                        assert(out@[out@.len() - 1] == (k2, v2));
                                    }
                                }
                            }
                        },
                    }
                },
            }
            i = i + 1;
        }
        let m = ConsistentMap { entries: out };
        proof {
            lemma_entries_map_props(m.entries@);
            assert forall|k: K| self@.contains_key(k) implies exists|p: (K2, V2)|
                {
                    &&& #[trigger] f.ensures((&k, &self@[k]), Ok(p))
                    &&& m@.contains_key(p.0)
                    &&& m@[p.0] == p.1
                } by {
                let ii = choose|ii: int| 0 <= ii < s.len() && (#[trigger] s[ii]).0 == k;
                assert(self@[k] == s[ii].1);
                let j = choose|j: int|
                    0 <= j < out@.len() && f.ensures(
                        (&(#[trigger] s[ii]).0, &s[ii].1),
                        Ok(out@[j]),
                    );
                assert(m@.contains_key(out@[j].0) && m@[out@[j].0] == out@[j].1);
                assert(f.ensures((&k, &self@[k]), Ok(out@[j])));
            }
            assert forall|k2: K2| m@.contains_key(k2) implies exists|k: K|
                {
                    &&& #[trigger] self@.contains_key(k)
                    &&& f.ensures((&k, &self@[k]), Ok((k2, m@[k2])))
                } by {
                let j = choose|j: int| 0 <= j < out@.len() && (#[trigger] out@[j]).0 == k2;
                assert(m@[k2] == out@[j].1);
                let si = choose|si: int|
                    0 <= si < s.len() && f.ensures(
                        (&(#[trigger] s[si]).0, &s[si].1),
                        Ok(out@[j]),
                    );
                assert(self@.contains_key(s[si].0) && self@[s[si].0] == s[si].1);
                assert(out@[j] == (out@[j].0, out@[j].1));
            }
        }
        Ok(m)
    }
}

} // verus!
