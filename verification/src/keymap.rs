//! A small string-to-string map that keeps its entries in insertion order,
//! used for provider API keys.
use vstd::prelude::*;

use crate::text::str_eq;

verus! {

broadcast use vstd::string::group_string_axioms;

/// Keys of the pairs are pairwise distinct.
pub open spec fn keys_distinct(p: Seq<(Seq<char>, Seq<char>)>) -> bool {
    forall|i: int, j: int| 0 <= i < j < p.len() ==> (#[trigger] p[i]).0 != (#[trigger] p[j]).0
}

/// Some pair has key `k`.
pub open spec fn has_key(p: Seq<(Seq<char>, Seq<char>)>, k: Seq<char>) -> bool {
    exists|i: int| 0 <= i < p.len() && (#[trigger] p[i]).0 == k
}

/// The map that a list of pairs with distinct keys describes.
pub open spec fn pairs_map(p: Seq<(Seq<char>, Seq<char>)>) -> Map<Seq<char>, Seq<char>> {
    Map::new(
        |k: Seq<char>| has_key(p, k),
        |k: Seq<char>| p[choose|i: int| 0 <= i < p.len() && (#[trigger] p[i]).0 == k].1,
    )
}

/// The pairs after setting key `k` to `v`: an existing pair keeps its place,
/// a new one goes last.
pub open spec fn insert_pair(p: Seq<(Seq<char>, Seq<char>)>, k: Seq<char>, v: Seq<char>) -> Seq<
    (Seq<char>, Seq<char>),
> {
    if has_key(p, k) {
        p.update(choose|i: int| 0 <= i < p.len() && (#[trigger] p[i]).0 == k, (k, v))
    } else {
        p.push((k, v))
    }
}

/// The pairs without the one for key `k`.
pub open spec fn remove_pair(p: Seq<(Seq<char>, Seq<char>)>, k: Seq<char>) -> Seq<
    (Seq<char>, Seq<char>),
> {
    p.filter(other_key(k))
}

/// Holds of pairs whose key is not `k`.
pub open spec fn other_key(k: Seq<char>) -> spec_fn((Seq<char>, Seq<char>)) -> bool {
    |e: (Seq<char>, Seq<char>)| e.0 != k
}

pub proof fn lemma_pairs_map_at(p: Seq<(Seq<char>, Seq<char>)>, i: int)
    requires
        keys_distinct(p),
        0 <= i < p.len(),
    ensures
        pairs_map(p).contains_key(p[i].0),
        pairs_map(p)[p[i].0] == p[i].1,
{
    let k = p[i].0;
    assert(has_key(p, k));
    let j = choose|j: int| 0 <= j < p.len() && (#[trigger] p[j]).0 == k;
    if j < i {
        assert(p[j].0 != p[i].0);
    } else if i < j {
        assert(p[i].0 != p[j].0);
    }
}

/// A string-to-string map whose entries keep their insertion order.
///
/// It stands where `std::collections::HashMap<String, String>` would: for a
/// map keyed by `String`, vstd's specification of `HashMap` lets Verus prove
/// nothing of what `insert` and `get` do to the contents, so the map is kept
/// here as a vector of pairs with distinct keys (the type invariant). Its
/// view as a `Map` is what a `HashMap` holds; insertion order is kept as
/// well, which a `HashMap` does not promise.
pub struct KeyMap {
    entries: Vec<(String, String)>,
}

impl KeyMap {
    /// The entries, in order, by view.
    pub closed spec fn pairs(&self) -> Seq<(Seq<char>, Seq<char>)> {
        self.entries@.map_values(|e: (String, String)| (e.0@, e.1@))
    }

    #[verifier::type_invariant]
    closed spec fn well_formed(&self) -> bool {
        keys_distinct(self.pairs())
    }

    /// An empty map.
    pub fn new() -> (m: KeyMap)
        ensures
            m.pairs() == Seq::<(Seq<char>, Seq<char>)>::empty(),
    {
        let m = KeyMap { entries: Vec::new() };
        proof {
            assert(m.pairs() =~= Seq::<(Seq<char>, Seq<char>)>::empty());
        }
        m
    }

    /// Number of entries.
    pub fn len(&self) -> (r: usize)
        ensures
            r == self.pairs().len(),
    {
        self.entries.len()
    }

    fn position(&self, key: &str) -> (r: Option<usize>)
        ensures
            match r {
                Some(i) => i < self.pairs().len() && self.pairs()[i as int].0 == key@,
                None => !has_key(self.pairs(), key@),
            },
    {
        let mut i: usize = 0;
        while i < self.entries.len()
            invariant
                i <= self.entries@.len(),
                forall|j: int| 0 <= j < i ==> (#[trigger] self.pairs()[j]).0 != key@,
            decreases self.entries@.len() - i,
        {
            if str_eq(self.entries[i].0.as_str(), key) {
                return Some(i);
            }
            i = i + 1;
        }
        None
    }

    /// The value stored for `key`.
    pub fn get(&self, key: &str) -> (r: Option<String>)
        ensures
            match r {
                Some(v) => self@.contains_key(key@) && v@ == self@[key@],
                None => !self@.contains_key(key@),
            },
    {
        proof {
            use_type_invariant(self);
        }
        match self.position(key) {
            Some(i) => {
                proof {
                    lemma_pairs_map_at(self.pairs(), i as int);
                }
                Some(self.entries[i].1.clone())
            },
            None => None,
        }
    }

    /// Whether `key` has a value.
    pub fn contains_key(&self, key: &str) -> (r: bool)
        ensures
            r == self@.contains_key(key@),
    {
        match self.position(key) {
            Some(_) => true,
            None => false,
        }
    }

    /// Set `key` to `value`; an existing entry keeps its place.
    pub fn insert(&mut self, key: String, value: String)
        ensures
            final(self).pairs() == insert_pair(old(self).pairs(), key@, value@),
            final(self)@ == old(self)@.insert(key@, value@),
    {
        proof {
            use_type_invariant(&*self);
        }
        let ghost p = self.pairs();
        match self.position(key.as_str()) {
            Some(i) => {
                proof {
                    let w = choose|w: int| 0 <= w < p.len() && (#[trigger] p[w]).0 == key@;
                    if w < i {
                        assert(p[w].0 != p[i as int].0);
                    } else if (i as int) < w {
                        assert(p[i as int].0 != p[w].0);
                    }
                }
                let mut entries: Vec<(String, String)> = Vec::new();
                core::mem::swap(&mut entries, &mut self.entries);
                entries.set(i, (key, value));
                proof {
                    let q = entries@.map_values(|e: (String, String)| (e.0@, e.1@));
                    assert(q =~= insert_pair(p, key@, value@));
                    lemma_insert_view(p, key@, value@);
                }
                self.entries = entries;
            },
            None => {
                let mut entries: Vec<(String, String)> = Vec::new();
                core::mem::swap(&mut entries, &mut self.entries);
                entries.push((key, value));
                proof {
                    let q = entries@.map_values(|e: (String, String)| (e.0@, e.1@));
                    assert(q =~= insert_pair(p, key@, value@));
                    lemma_insert_view(p, key@, value@);
                }
                self.entries = entries;
            },
        }
    }

    /// Set `key` to `value` unless it already has a value; tells whether
    /// it inserted.
    pub fn insert_if_absent(&mut self, key: String, value: String) -> (inserted: bool)
        ensures
            inserted == !old(self)@.contains_key(key@),
            inserted ==> final(self).pairs() == old(self).pairs().push((key@, value@)),
            !inserted ==> final(self).pairs() == old(self).pairs(),
            final(self)@ == (if inserted {
                old(self)@.insert(key@, value@)
            } else {
                old(self)@
            }),
    {
        if self.contains_key(key.as_str()) {
            false
        } else {
            let ghost p = self.pairs();
            self.insert(key, value);
            true
        }
    }

    /// Remove the entry for `key`, if any.
    pub fn remove(&mut self, key: &str)
        ensures
            final(self).pairs() == remove_pair(old(self).pairs(), key@),
            final(self)@ == old(self)@.remove(key@),
    {
        proof {
            use_type_invariant(&*self);
        }
        let ghost p = self.pairs();
        let mut kept: Vec<(String, String)> = Vec::new();
        let mut i: usize = 0;
        while i < self.entries.len()
            invariant
                i <= self.entries@.len(),
                p == self.pairs(),
                kept@.map_values(|e: (String, String)| (e.0@, e.1@)) == remove_pair(
                    p.take(i as int),
                    key@,
                ),
            decreases self.entries@.len() - i,
        {
            proof {
                assert(p.take(i + 1).drop_last() =~= p.take(i as int));
                assert(p.take(i + 1).last() == p[i as int]);
                reveal(Seq::filter);
            }
            if !str_eq(self.entries[i].0.as_str(), key) {
                let ghost before = kept@;
                kept.push((self.entries[i].0.clone(), self.entries[i].1.clone()));
                proof {
                    assert(kept@.map_values(|e: (String, String)| (e.0@, e.1@)) =~= before.map_values(
                        |e: (String, String)| (e.0@, e.1@),
                    ).push(p[i as int]));
                }
            }
            i = i + 1;
        }
        proof {
            assert(p.take(p.len() as int) =~= p);
            lemma_remove_distinct(p, key@);
        }
        self.entries = kept;
        proof {
            lemma_remove_view(p, key@);
        }
    }

    /// Copies of the entries, in order.
    pub fn entries(&self) -> (r: Vec<(String, String)>)
        ensures
            r@.map_values(|e: (String, String)| (e.0@, e.1@)) == self.pairs(),
            keys_distinct(self.pairs()),
    {
        proof {
            use_type_invariant(self);
        }
        let mut out: Vec<(String, String)> = Vec::new();
        let mut i: usize = 0;
        while i < self.entries.len()
            invariant
                i <= self.entries@.len(),
                out@.map_values(|e: (String, String)| (e.0@, e.1@)) == self.pairs().take(i as int),
            decreases self.entries@.len() - i,
        {
            let ghost before = out@;
            out.push((self.entries[i].0.clone(), self.entries[i].1.clone()));
            proof {
                assert(out@.map_values(|e: (String, String)| (e.0@, e.1@)) =~= before.map_values(
                    |e: (String, String)| (e.0@, e.1@),
                ).push(self.pairs()[i as int]));
                assert(self.pairs().take(i + 1) =~= self.pairs().take(i as int).push(
                    self.pairs()[i as int],
                ));
            }
            i = i + 1;
        }
        proof {
            assert(self.pairs().take(self.pairs().len() as int) =~= self.pairs());
        }
        out
    }
}

impl View for KeyMap {
    type V = Map<Seq<char>, Seq<char>>;

    open spec fn view(&self) -> Map<Seq<char>, Seq<char>> {
        pairs_map(self.pairs())
    }
}

proof fn lemma_insert_view(p: Seq<(Seq<char>, Seq<char>)>, k: Seq<char>, v: Seq<char>)
    requires
        keys_distinct(p),
    ensures
        keys_distinct(insert_pair(p, k, v)),
        pairs_map(insert_pair(p, k, v)) == pairs_map(p).insert(k, v),
{
    let q = insert_pair(p, k, v);
    if has_key(p, k) {
        let w = choose|w: int| 0 <= w < p.len() && (#[trigger] p[w]).0 == k;
        assert(keys_distinct(q)) by {
            assert forall|i: int, j: int| 0 <= i < j < q.len() implies (#[trigger] q[i]).0 != (
            #[trigger] q[j]).0 by {
                assert(p[i].0 != p[j].0);
            }
        }
    } else {
        assert(keys_distinct(q)) by {
            assert forall|i: int, j: int| 0 <= i < j < q.len() implies (#[trigger] q[i]).0 != (
            #[trigger] q[j]).0 by {
                if j == p.len() {
                    assert(p[i].0 != k);
                } else {
                    assert(p[i].0 != p[j].0);
                }
            }
        }
    }
    assert forall|key: Seq<char>| #[trigger]
        pairs_map(q).contains_key(key) == pairs_map(p).insert(k, v).contains_key(key) by {
        if has_key(p, key) {
            let i = choose|i: int| 0 <= i < p.len() && (#[trigger] p[i]).0 == key;
            assert(q[i].0 == key);
        }
        if has_key(q, key) {
            let i = choose|i: int| 0 <= i < q.len() && (#[trigger] q[i]).0 == key;
            if key != k {
                assert(p[i].0 == key);
            }
        }
        if key == k {
            if has_key(p, k) {
                let w = choose|w: int| 0 <= w < p.len() && (#[trigger] p[w]).0 == k;
                assert(q[w].0 == k);
            } else {
                assert(q[p.len() as int].0 == k);
            }
        }
    }
    assert forall|key: Seq<char>| #[trigger] pairs_map(q).contains_key(key) implies pairs_map(q)[key]
        == pairs_map(p).insert(k, v)[key] by {
        let i = choose|i: int| 0 <= i < q.len() && (#[trigger] q[i]).0 == key;
        lemma_pairs_map_at(q, i);
        if key != k {
            assert(p[i].0 == key);
            lemma_pairs_map_at(p, i);
        }
    }
    assert(pairs_map(q) =~= pairs_map(p).insert(k, v));
}

proof fn lemma_remove_distinct(p: Seq<(Seq<char>, Seq<char>)>, k: Seq<char>)
    requires
        keys_distinct(p),
    ensures
        keys_distinct(remove_pair(p, k)),
        forall|e: (Seq<char>, Seq<char>)| #[trigger] remove_pair(p, k).contains(e) <==> (p.contains(e) && e.0 != k),
{
    broadcast use vstd::seq_lib::group_filter_ensures;

    lemma_filter_distinct(p, other_key(k));
}

proof fn lemma_filter_distinct(
    p: Seq<(Seq<char>, Seq<char>)>,
    pred: spec_fn((Seq<char>, Seq<char>)) -> bool,
)
    requires
        keys_distinct(p),
    ensures
        keys_distinct(p.filter(pred)),
        forall|e: (Seq<char>, Seq<char>)| #[trigger] p.filter(pred).contains(e) <==> (p.contains(e) && pred(e)),
    decreases p.len(),
{
    broadcast use vstd::seq_lib::group_filter_ensures;

    reveal(Seq::filter);
    if p.len() > 0 {
        let d = p.drop_last();
        assert forall|i: int, j: int| 0 <= i < j < d.len() implies (#[trigger] d[i]).0 != (
        #[trigger] d[j]).0 by {
            assert(p[i].0 != p[j].0);
        }
        lemma_filter_distinct(d, pred);
        let f = d.filter(pred);
        if pred(p.last()) {
            assert forall|i: int, j: int|
                0 <= i < j < f.push(p.last()).len() implies (#[trigger] f.push(p.last())[i]).0 != (
            #[trigger] f.push(p.last())[j]).0 by {
                if j == f.len() {
                    assert(f.contains(f[i]));
                    let w = choose|w: int| 0 <= w < d.len() && d[w] == f[i];
                    assert(p[w].0 != p[p.len() - 1].0);
                }
            }
        }
        assert forall|e: (Seq<char>, Seq<char>)| #[trigger] p.filter(pred).contains(e) <==> (
        p.contains(e) && pred(e)) by {
            if p.contains(e) && e != p.last() {
                let w = choose|w: int| 0 <= w < p.len() && p[w] == e;
                assert(d[w] == e);
            }
            if d.contains(e) {
                let w = choose|w: int| 0 <= w < d.len() && d[w] == e;
                assert(p[w] == e);
            }
            if pred(p.last()) {
                if f.push(p.last()).contains(e) {
                    let w = choose|w: int| 0 <= w < f.push(p.last()).len() && f.push(p.last())[w] == e;
                    if w < f.len() {
                        assert(f.contains(e));
                    }
                }
                if f.contains(e) {
                    let w = choose|w: int| 0 <= w < f.len() && f[w] == e;
                    assert(f.push(p.last())[w] == e);
                }
                if e == p.last() {
                    assert(f.push(p.last())[f.len() as int] == e);
                }
            }
        }
    }
}

proof fn lemma_remove_view(p: Seq<(Seq<char>, Seq<char>)>, k: Seq<char>)
    requires
        keys_distinct(p),
    ensures
        pairs_map(remove_pair(p, k)) == pairs_map(p).remove(k),
{
    lemma_remove_distinct(p, k);
    let q = remove_pair(p, k);
    assert forall|key: Seq<char>| #[trigger]
        pairs_map(q).contains_key(key) == pairs_map(p).remove(k).contains_key(key) by {
        if has_key(q, key) {
            let i = choose|i: int| 0 <= i < q.len() && (#[trigger] q[i]).0 == key;
            assert(q.contains(q[i]));
            let w = choose|w: int| 0 <= w < p.len() && p[w] == q[i];
            assert(p[w].0 == key);
        }
        if has_key(p, key) && key != k {
            let i = choose|i: int| 0 <= i < p.len() && (#[trigger] p[i]).0 == key;
            assert(p.contains(p[i]));
            assert(q.contains(p[i]));
            let w = choose|w: int| 0 <= w < q.len() && q[w] == p[i];
            assert(q[w].0 == key);
        }
    }
    assert forall|key: Seq<char>| #[trigger] pairs_map(q).contains_key(key) implies pairs_map(q)[key]
        == pairs_map(p).remove(k)[key] by {
        let i = choose|i: int| 0 <= i < q.len() && (#[trigger] q[i]).0 == key;
        lemma_pairs_map_at(q, i);
        assert(q.contains(q[i]));
        let w = choose|w: int| 0 <= w < p.len() && p[w] == q[i];
        lemma_pairs_map_at(p, w);
    }
    assert(pairs_map(q) =~= pairs_map(p).remove(k));
}

} // verus!
