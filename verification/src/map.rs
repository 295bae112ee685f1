//! A map keyed by strings that keeps its entries in insertion order.
use vstd::prelude::*;

verus! {

/// A map from strings to values. Each key occurs once; entries keep the
/// order in which their keys were first inserted.
#[derive(Debug)]
pub struct StrMap<V> {
    entries: Vec<(String, V)>,
}

pub open spec fn key_at<V>(e: Seq<(String, V)>, k: Seq<char>, i: int) -> bool {
    0 <= i < e.len() && e[i].0@ == k
}

pub open spec fn keys_distinct<V>(e: Seq<(String, V)>) -> bool {
    forall|i: int, j: int| 0 <= i < e.len() && 0 <= j < e.len() && i != j ==> e[i].0@ != e[j].0@
}

pub open spec fn entries_map<V>(e: Seq<(String, V)>) -> Map<Seq<char>, V> {
    Map::new(
        |k: Seq<char>| exists|i: int| key_at(e, k, i),
        |k: Seq<char>| e[choose|i: int| key_at(e, k, i)].1,
    )
}

pub proof fn lemma_entries_map_at<V>(e: Seq<(String, V)>, i: int)
    requires
        keys_distinct(e),
        0 <= i < e.len(),
    ensures
        entries_map(e).contains_key(e[i].0@),
        entries_map(e)[e[i].0@] == e[i].1,
{
    let k = e[i].0@;
    assert(key_at(e, k, i));
    let j = choose|j: int| key_at(e, k, j);
    assert(j == i);
}

/// A map spelled out by entries has a finite domain: the set of the
/// entries' keys.
pub proof fn lemma_entries_map_finite<V>(e: Seq<(String, V)>)
    ensures
        entries_map(e).dom() == e.map_values(|p: (String, V)| p.0@).to_set(),
        entries_map(e).dom().finite(),
{
    let ks = e.map_values(|p: (String, V)| p.0@);
    assert forall|k: Seq<char>| #[trigger] entries_map(e).dom().contains(k) == ks.to_set().contains(k) by {
        if entries_map(e).dom().contains(k) {
            let i = choose|i: int| key_at(e, k, i);
            assert(ks[i] == k);
        }
        if ks.to_set().contains(k) {
            let i = choose|i: int| 0 <= i < ks.len() && ks[i] == k;
            assert(key_at(e, k, i));
        }
    }
    assert(entries_map(e).dom() =~= ks.to_set());
    vstd::seq_lib::seq_to_set_is_finite(ks);
}

/// The map of a prefix one entry longer adds that entry.
pub proof fn lemma_entries_map_prefix<V>(e: Seq<(String, V)>, i: int)
    requires
        keys_distinct(e),
        0 <= i < e.len(),
    ensures
        entries_map(e.subrange(0, i + 1)) == entries_map(e.subrange(0, i)).insert(e[i].0@, e[i].1),
        !entries_map(e.subrange(0, i)).contains_key(e[i].0@),
{
    let pre = e.subrange(0, i);
    let nxt = e.subrange(0, i + 1);
    let k = e[i].0@;
    assert(keys_distinct(nxt));
    assert(keys_distinct(pre));
    assert forall|kk: Seq<char>| #[trigger] entries_map(nxt).contains_key(kk)
        == entries_map(pre).insert(k, e[i].1).contains_key(kk) by {
        if entries_map(nxt).contains_key(kk) {
            let j = choose|j: int| key_at(nxt, kk, j);
            if j < i {
                assert(key_at(pre, kk, j));
            }
        }
        if entries_map(pre).contains_key(kk) {
            let j = choose|j: int| key_at(pre, kk, j);
            assert(key_at(nxt, kk, j));
        }
        assert(key_at(nxt, k, i));
    }
    assert forall|kk: Seq<char>| #[trigger] entries_map(nxt).contains_key(kk)
        implies entries_map(nxt)[kk] == entries_map(pre).insert(k, e[i].1)[kk] by {
        let j = choose|j: int| key_at(nxt, kk, j);
        lemma_entries_map_at(nxt, j);
        if j < i {
            lemma_entries_map_at(pre, j);
        }
    }
    assert(entries_map(nxt) =~= entries_map(pre).insert(k, e[i].1));
    if entries_map(pre).contains_key(k) {
        let j = choose|j: int| key_at(pre, k, j);
        assert(e[j].0@ == e[i].0@);
    }
}

impl<V> StrMap<V> {
    #[verifier::type_invariant]
    spec fn inv(self) -> bool {
        keys_distinct(self.entries@)
    }

    /// The entries, in order.
    pub closed spec fn entries(self) -> Seq<(String, V)> {
        self.entries@
    }

    /// The map from keys to values.
    pub closed spec fn view(self) -> Map<Seq<char>, V> {
        entries_map(self.entries@)
    }

    /// The map is the one its entries spell out.
    pub proof fn lemma_view_entries(self)
        ensures
            self@ == entries_map(self.entries()),
            self@.dom() == self.key_seq().to_set(),
            self@.dom().finite(),
    {
        lemma_entries_map_finite(self.entries@);
    }

    /// The keys, in order.
    pub open spec fn key_seq(self) -> Seq<Seq<char>> {
        self.entries().map_values(|p: (String, V)| p.0@)
    }

    proof fn lemma_view(self)
        requires
            keys_distinct(self.entries@),
        ensures
            keys_distinct(self.entries()),
            self@ == entries_map(self.entries()),
            forall|i: int|
                0 <= i < self.entries().len() ==> #[trigger] self@.contains_key(self.entries()[i].0@)
                    && self@[self.entries()[i].0@] == self.entries()[i].1,
            forall|k: Seq<char>|
                #[trigger] self@.contains_key(k) ==> exists|i: int|
                    0 <= i < self.entries().len() && self.entries()[i].0@ == k,
    {
        assert forall|i: int| 0 <= i < self.entries().len() implies #[trigger] self@.contains_key(
            self.entries()[i].0@,
        ) && self@[self.entries()[i].0@] == self.entries()[i].1 by {
            lemma_entries_map_at(self.entries@, i);
        }
        assert forall|k: Seq<char>| #[trigger] self@.contains_key(k) implies exists|i: int|
            0 <= i < self.entries().len() && self.entries()[i].0@ == k by {
            let i = choose|i: int| key_at(self.entries@, k, i);
            assert(0 <= i < self.entries().len() && self.entries()[i].0@ == k);
        }
    }

    /// An empty map.
    pub fn new() -> (m: Self)
        ensures
            m@ == Map::<Seq<char>, V>::empty(),
            m.entries().len() == 0,
    {
        let m = StrMap { entries: Vec::new() };
        assert(m@ =~= Map::<Seq<char>, V>::empty());
        m
    }

    /// The number of entries.
    pub fn len(&self) -> (n: usize)
        ensures
            n == self.entries().len(),
    {
        self.entries.len()
    }

    pub fn is_empty(&self) -> (b: bool)
        ensures
            b == (self.entries().len() == 0),
            b == (self@ == Map::<Seq<char>, V>::empty()),
            !b ==> self@.contains_key(self.entries()[0].0@),
    {
        proof {
            use_type_invariant(self);
            self.lemma_view();
            if self.entries().len() > 0 {
                assert(self@.contains_key(self.entries()[0].0@));
            } else {
                assert(self@ =~= Map::<Seq<char>, V>::empty());
            }
        }
        self.entries.len() == 0
    }

    /// The key and value of the `i`-th entry.
    pub fn entry(&self, i: usize) -> (r: (&String, &V))
        requires
            i < self.entries().len(),
        ensures
            *r.0 == self.entries()[i as int].0,
            *r.1 == self.entries()[i as int].1,
    {
        let e = &self.entries[i];
        (&e.0, &e.1)
    }

    fn position(&self, k: &str) -> (r: Option<usize>)
        ensures
            match r {
                Some(i) => i < self.entries().len() && self.entries()[i as int].0@ == k@,
                None => forall|i: int| 0 <= i < self.entries().len() ==> self.entries()[i].0@ != k@,
            },
    {
        let mut i: usize = 0;
        while i < self.entries.len()
            invariant
                i <= self.entries@.len(),
                forall|j: int| 0 <= j < i ==> self.entries@[j].0@ != k@,
            decreases self.entries@.len() - i,
        {
            if crate::text::str_eq(self.entries[i].0.as_str(), k) {
                return Some(i);
            }
            i = i + 1;
        }
        None
    }

    /// The value stored under `k`, if any.
    pub fn get(&self, k: &str) -> (r: Option<&V>)
        ensures
            r is Some == self@.contains_key(k@),
            r matches Some(v) ==> *v == self@[k@],
    {
        proof {
            use_type_invariant(self);
            self.lemma_view();
        }
        match self.position(k) {
            Some(i) => {
                proof {
                    lemma_entries_map_at(self.entries@, i as int);
                }
                Some(&self.entries[i].1)
            },
            None => None,
        }
    }

    /// Whether `k` has an entry.
    pub fn contains_key(&self, k: &str) -> (b: bool)
        ensures
            b == self@.contains_key(k@),
    {
        proof {
            use_type_invariant(self);
            self.lemma_view();
        }
        self.position(k).is_some()
    }

    /// Sets the value of `k`: an existing entry keeps its place, a new key
    /// goes last.
    pub fn insert(&mut self, k: String, v: V)
        ensures
            final(self)@ == old(self)@.insert(k@, v),
            old(self)@.contains_key(k@) ==> final(self).key_seq() == old(self).key_seq(),
            !old(self)@.contains_key(k@) ==> final(self).key_seq() == old(self).key_seq().push(k@),
    {
        proof {
            use_type_invariant(&*self);
            (*self).lemma_view();
        }
        let ghost old_e = self.entries@;
        match self.position(k.as_str()) {
            Some(i) => {
                let ghost kv = k@;
                let mut ent: Vec<(String, V)> = Vec::new();
                std::mem::swap(&mut ent, &mut self.entries);
                ent.set(i, (k, v));
                proof {
                    let e = ent@;
                    assert(keys_distinct(e));
                    assert forall|kk: Seq<char>| #[trigger] entries_map(e).contains_key(kk)
                        == old(self)@.insert(kv, v).contains_key(kk) by {
                        if entries_map(e).contains_key(kk) {
                            let j = choose|j: int| key_at(e, kk, j);
                            if j != i {
                                assert(key_at(old_e, kk, j));
                            }
                        }
                        if old(self)@.contains_key(kk) && kk != kv {
                            let j = choose|j: int| key_at(old_e, kk, j);
                            assert(key_at(e, kk, j));
                        }
                        assert(key_at(e, kv, i as int));
                    }
                    assert forall|kk: Seq<char>| #[trigger] entries_map(e).contains_key(kk)
                        implies entries_map(e)[kk] == old(self)@.insert(kv, v)[kk] by {
                        let j = choose|j: int| key_at(e, kk, j);
                        lemma_entries_map_at(e, j);
                        if j != i {
                            lemma_entries_map_at(old_e, j);
                        }
                    }
                    assert(entries_map(e) =~= old(self)@.insert(kv, v));
                }
                self.entries = ent;
                assert(self.key_seq() =~= old(self).key_seq());
            },
            None => {
                let ghost kv = k@;
                let mut ent: Vec<(String, V)> = Vec::new();
                std::mem::swap(&mut ent, &mut self.entries);
                ent.push((k, v));
                proof {
                    let e = ent@;
                    assert(keys_distinct(e));
                    let n = old_e.len() as int;
                    assert forall|kk: Seq<char>| #[trigger] entries_map(e).contains_key(kk)
                        == old(self)@.insert(kv, v).contains_key(kk) by {
                        if entries_map(e).contains_key(kk) {
                            let j = choose|j: int| key_at(e, kk, j);
                            if j != n {
                                assert(key_at(old_e, kk, j));
                            }
                        }
                        if old(self)@.contains_key(kk) && kk != kv {
                            let j = choose|j: int| key_at(old_e, kk, j);
                            assert(key_at(e, kk, j));
                        }
                        assert(key_at(e, kv, n));
                    }
                    assert forall|kk: Seq<char>| #[trigger] entries_map(e).contains_key(kk)
                        implies entries_map(e)[kk] == old(self)@.insert(kv, v)[kk] by {
                        let j = choose|j: int| key_at(e, kk, j);
                        lemma_entries_map_at(e, j);
                        if j != n {
                            lemma_entries_map_at(old_e, j);
                        }
                    }
                    assert(entries_map(e) =~= old(self)@.insert(kv, v));
                }
                self.entries = ent;
                assert(self.key_seq() =~= old(self).key_seq().push(kv));
            },
        }
    }

    /// Inserts `k` with `v` only when `k` has no entry yet
    /// (`entry(k).or_insert(v)`).
    pub fn insert_if_absent(&mut self, k: String, v: V)
        ensures
            old(self)@.contains_key(k@) ==> final(self)@ == old(self)@,
            !old(self)@.contains_key(k@) ==> final(self)@ == old(self)@.insert(k@, v),
    {
        if !self.contains_key(k.as_str()) {
            self.insert(k, v);
        }
    }

    /// Removes the entry of `k` and gives back its value.
    pub fn remove(&mut self, k: &str) -> (r: Option<V>)
        ensures
            final(self)@ == old(self)@.remove(k@),
            r is Some == old(self)@.contains_key(k@),
            r matches Some(v) ==> v == old(self)@[k@],
    {
        proof {
            use_type_invariant(&*self);
            (*self).lemma_view();
        }
        let ghost old_e = self.entries@;
        match self.position(k) {
            Some(i) => {
                let mut ent: Vec<(String, V)> = Vec::new();
                std::mem::swap(&mut ent, &mut self.entries);
                let (_, v) = ent.remove(i);
                proof {
                    let e = ent@;
                    assert(keys_distinct(e)) by {
                        assert forall|a: int, b: int|
                            0 <= a < e.len() && 0 <= b < e.len() && a != b implies e[a].0@
                            != e[b].0@ by {
                            let a2 = if a < i { a } else { a + 1 };
                            let b2 = if b < i { b } else { b + 1 };
                            assert(e[a] == old_e[a2]);
                            assert(e[b] == old_e[b2]);
                        }
                    }
                    assert forall|kk: Seq<char>| #[trigger] entries_map(e).contains_key(kk)
                        == old(self)@.remove(k@).contains_key(kk) by {
                        if entries_map(e).contains_key(kk) {
                            let j = choose|j: int| key_at(e, kk, j);
                            let j2 = if j < i { j } else { j + 1 };
                            assert(e[j] == old_e[j2]);
                            assert(key_at(old_e, kk, j2));
                        }
                        if old(self)@.contains_key(kk) && kk != k@ {
                            let j = choose|j: int| key_at(old_e, kk, j);
                            let j2 = if j < i { j } else { j - 1 };
                            assert(e[j2] == old_e[j]);
                            assert(key_at(e, kk, j2));
                        }
                    }
                    assert forall|kk: Seq<char>| #[trigger] entries_map(e).contains_key(kk)
                        implies entries_map(e)[kk] == old(self)@.remove(k@)[kk] by {
                        let j = choose|j: int| key_at(e, kk, j);
                        lemma_entries_map_at(e, j);
                        let j2 = if j < i { j } else { j + 1 };
                        assert(e[j] == old_e[j2]);
                        lemma_entries_map_at(old_e, j2);
                    }
                    assert(entries_map(e) =~= old(self)@.remove(k@));
                    lemma_entries_map_at(old_e, i as int);
                }
                self.entries = ent;
                Some(v)
            },
            None => {
                proof {
                    assert(old(self)@.remove(k@) =~= old(self)@);
                }
                None
            },
        }
    }

    /// The keys, in entry order.
    pub fn keys(&self) -> (ks: Vec<String>)
        ensures
            ks@.len() == self.entries().len(),
            forall|i: int| 0 <= i < ks@.len() ==> ks@[i] == self.entries()[i].0,
            forall|k: Seq<char>| #[trigger] self@.contains_key(k) <==> ks@.map_values(|s: String| s@).contains(k),
    {
        proof {
            use_type_invariant(self);
            self.lemma_view();
        }
        let mut ks: Vec<String> = Vec::new();
        let mut i: usize = 0;
        while i < self.entries.len()
            invariant
                i <= self.entries@.len(),
                ks@.len() == i,
                forall|j: int| 0 <= j < i ==> ks@[j] == self.entries@[j].0,
            decreases self.entries@.len() - i,
        {
            ks.push(self.entries[i].0.clone());
            i = i + 1;
        }
        proof {
            let kv = ks@.map_values(|s: String| s@);
            assert forall|k: Seq<char>| #[trigger] self@.contains_key(k) <==> kv.contains(k) by {
                if self@.contains_key(k) {
                    let j = choose|j: int| 0 <= j < self.entries().len() && self.entries()[j].0@ == k;
                    assert(kv[j] == k);
                }
                if kv.contains(k) {
                    let j = choose|j: int| 0 <= j < kv.len() && kv[j] == k;
                    assert(self.entries()[j].0@ == k);
                }
            }
        }
        ks
    }

    /// The entries, in order, taken out of the map.
    pub fn into_entries(self) -> (v: Vec<(String, V)>)
        ensures
            v@ == self.entries(),
            keys_distinct(v@),
            self@ == entries_map(v@),
    {
        proof {
            use_type_invariant(&self);
        }
        self.entries
    }
}

/// The texts that a map of strings holds.
pub open spec fn text_map(m: Map<Seq<char>, String>) -> Map<Seq<char>, Seq<char>> {
    Map::new(|k: Seq<char>| m.contains_key(k), |k: Seq<char>| m[k]@)
}

pub proof fn lemma_text_map_insert(m: Map<Seq<char>, String>, k: Seq<char>, v: String)
    ensures
        text_map(m.insert(k, v)) == text_map(m).insert(k, v@),
{
    assert(text_map(m.insert(k, v)) =~= text_map(m).insert(k, v@));
}

pub proof fn lemma_text_map_union(a: Map<Seq<char>, String>, b: Map<Seq<char>, String>)
    ensures
        text_map(a.union_prefer_right(b)) == text_map(a).union_prefer_right(text_map(b)),
{
    assert(text_map(a.union_prefer_right(b)) =~= text_map(a).union_prefer_right(text_map(b)));
}

impl StrMap<String> {
    /// The map from keys to the texts of the values.
    pub open spec fn texts(self) -> Map<Seq<char>, Seq<char>> {
        text_map(self@)
    }

    /// A copy of the map, with the same entries in the same order.
    pub fn clone_map(&self) -> (r: Self)
        ensures
            r.entries() == self.entries(),
            r@ == self@,
    {
        proof {
            use_type_invariant(self);
        }
        let mut e: Vec<(String, String)> = Vec::new();
        let mut i: usize = 0;
        while i < self.entries.len()
            invariant
                i <= self.entries@.len(),
                e@ == self.entries@.subrange(0, i as int),
            decreases self.entries@.len() - i,
        {
            let p = &self.entries[i];
            e.push((p.0.clone(), p.1.clone()));
            assert(e@ =~= self.entries@.subrange(0, i + 1));
            i = i + 1;
        }
        assert(e@ =~= self.entries@);
        StrMap { entries: e }
    }

    /// Inserts every entry of `other`, in order, over the entries of `self`.
    pub fn extend_from(&mut self, other: &StrMap<String>)
        ensures
            final(self)@ == old(self)@.union_prefer_right(other@),
    {
        proof {
            use_type_invariant(other);
            other.lemma_view();
        }
        let n = other.len();
        let mut i: usize = 0;
        while i < n
            invariant
                n == other.entries().len(),
                i <= n,
                keys_distinct(other.entries()),
                self@ == old(self)@.union_prefer_right(
                    entries_map(other.entries().subrange(0, i as int)),
                ),
            decreases n - i,
        {
            let (k, v) = other.entry(i);
            self.insert(k.clone(), v.clone());
            proof {
                lemma_entries_map_prefix(other.entries(), i as int);
                assert(self@ =~= old(self)@.union_prefer_right(
                    entries_map(other.entries().subrange(0, i + 1)),
                ));
            }
            i = i + 1;
        }
        proof {
            assert(other.entries().subrange(0, n as int) =~= other.entries());
        }
    }

    /// The same keys, in the same order, each with the empty string.
    pub fn cleared(&self) -> (r: Self)
        ensures
            r.texts() == Map::new(|k: Seq<char>| self@.contains_key(k), |k: Seq<char>| Seq::<char>::empty()),
    {
        proof {
            use_type_invariant(self);
            self.lemma_view();
        }
        let mut r: StrMap<String> = StrMap::new();
        let n = self.len();
        let mut i: usize = 0;
        proof {
            assert(r.texts() =~= Map::new(
                |k: Seq<char>| entries_map(self.entries().subrange(0, 0)).contains_key(k),
                |k: Seq<char>| Seq::<char>::empty(),
            ));
        }
        while i < n
            invariant
                n == self.entries().len(),
                i <= n,
                keys_distinct(self.entries()),
                r.texts() == Map::new(
                    |k: Seq<char>| entries_map(self.entries().subrange(0, i as int)).contains_key(k),
                    |k: Seq<char>| Seq::<char>::empty(),
                ),
            decreases n - i,
        {
            let (k, _) = self.entry(i);
            let e = String::new();
            proof {
                lemma_text_map_insert(r@, k@, e);
                lemma_entries_map_prefix(self.entries(), i as int);
            }
            r.insert(k.clone(), e);
            proof {
                assert(r.texts() =~= Map::new(
                    |kk: Seq<char>| entries_map(self.entries().subrange(0, i + 1)).contains_key(kk),
                    |kk: Seq<char>| Seq::<char>::empty(),
                ));
            }
            i = i + 1;
        }
        proof {
            assert(self.entries().subrange(0, n as int) =~= self.entries());
            assert(r.texts() =~= Map::new(|k: Seq<char>| self@.contains_key(k), |k: Seq<char>| Seq::<char>::empty()));
        }
        r
    }

    /// Adds each entry of `other` whose key `self` lacks, in order
    /// (`entry(k).or_insert(v)` for each entry of `other`).
    pub fn fill_from(&mut self, other: &StrMap<String>)
        ensures
            final(self)@ == other@.union_prefer_right(old(self)@),
    {
        proof {
            use_type_invariant(other);
            other.lemma_view();
        }
        let n = other.len();
        let mut i: usize = 0;
        while i < n
            invariant
                n == other.entries().len(),
                i <= n,
                keys_distinct(other.entries()),
                self@ == entries_map(other.entries().subrange(0, i as int)).union_prefer_right(old(self)@),
            decreases n - i,
        {
            let (k, v) = other.entry(i);
            self.insert_if_absent(k.clone(), v.clone());
            proof {
                lemma_entries_map_prefix(other.entries(), i as int);
                assert(self@ =~= entries_map(other.entries().subrange(0, i + 1)).union_prefer_right(
                    old(self)@,
                ));
            }
            i = i + 1;
        }
        proof {
            assert(other.entries().subrange(0, n as int) =~= other.entries());
        }
    }
}

} // verus!
