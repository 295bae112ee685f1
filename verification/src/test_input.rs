//! Test inputs for running a sequence: the binding keys it reads that no
//! sub-sequence mapping supplies, and a value for each.
use vstd::prelude::*;
use crate::keys::{
    collect_handler, collect_handlers, free_keys, handlers_scan, sorted_keys, strictly_sorted, strs,
};
use crate::map::{StrMap, lemma_text_map_insert};
use crate::workflow::{Handler, Sequence};

verus! {

/// A change to the test inputs.
#[derive(Debug)]
pub enum TestInputMsg {
    /// Set the value of a key.
    ValueChanged(String, String),
    /// Empty every value.
    ClearAll,
    /// The keys are to be parsed again (done by the caller).
    RefreshKeys,
}

/// The binding keys a sequence needs as test inputs, and their values.
#[derive(Debug)]
pub struct TestInputState {
    /// The keys, sorted, each once.
    pub binding_keys: Vec<String>,
    /// The value of each key.
    pub test_values: StrMap<String>,
    /// The keys that sub-sequence mappings supply.
    pub mapped_keys: Vec<String>,
}

/// Whether `k` has a nonempty value.
pub open spec fn is_filled(values: Map<Seq<char>, Seq<char>>, k: Seq<char>) -> bool {
    values.contains_key(k) && values[k].len() > 0
}

/// How many of `keys[..n]` have a nonempty value.
pub open spec fn filled_upto(keys: Seq<Seq<char>>, values: Map<Seq<char>, Seq<char>>, n: int) -> nat
    decreases n,
{
    if n <= 0 || n > keys.len() {
        0
    } else {
        filled_upto(keys, values, n - 1) + if is_filled(values, keys[n - 1]) {
            1nat
        } else {
            0nat
        }
    }
}

/// The values after the keys became `keys`: each key keeps its old value,
/// a new key gets the empty string, and other keys go.
pub open spec fn kept_values(keys: Set<Seq<char>>, old_values: Map<Seq<char>, Seq<char>>) -> Map<
    Seq<char>,
    Seq<char>,
> {
    Map::new(
        |k: Seq<char>| keys.contains(k),
        |k: Seq<char>|
            if old_values.contains_key(k) {
                old_values[k]
            } else {
                Seq::empty()
            },
    )
}

/// The state as values: the keys in order, the value of each key, and the
/// keys that mappings supply.
pub ghost struct TestInputV {
    pub keys: Seq<Seq<char>>,
    pub values: Map<Seq<char>, Seq<char>>,
    pub mapped: Seq<Seq<char>>,
}

impl View for TestInputState {
    type V = TestInputV;

    open spec fn view(&self) -> TestInputV {
        TestInputV {
            keys: strs(self.binding_keys@),
            values: self.test_values.texts(),
            mapped: strs(self.mapped_keys@),
        }
    }
}

impl TestInputState {
    /// No keys and no values.
    pub fn new() -> (s: Self)
        ensures
            s@.keys.len() == 0,
            s@.values == Map::<Seq<char>, Seq<char>>::empty(),
            s@.mapped.len() == 0,
    {
        let s = TestInputState { binding_keys: Vec::new(), test_values: StrMap::new(), mapped_keys: Vec::new() };
        assert(s.test_values.texts() =~= Map::<Seq<char>, Seq<char>>::empty());
        s
    }

    /// Takes the keys from the scan of some handlers: the sorted distinct
    /// keys that no mapping supplies; the values follow the keys.
    fn settle(&mut self, keys: Vec<String>, mapped: Vec<String>)
        ensures
            strictly_sorted(final(self)@.keys),
            forall|x: Seq<char>|
                final(self)@.keys.contains(x) <==> (strs(keys@).contains(x) && !strs(
                    mapped@,
                ).contains(x)),
            final(self)@.values == kept_values(
                Set::new(|x: Seq<char>| strs(keys@).contains(x) && !strs(mapped@).contains(x)),
                old(self)@.values,
            ),
            final(self)@.mapped == strs(mapped@),
    {
        let bk = sorted_keys(&keys, &mapped);
        let ghost ks = Set::new(|x: Seq<char>| strs(keys@).contains(x) && !strs(mapped@).contains(x));
        let ghost old_vals = self.test_values.texts();
        let mut nv: StrMap<String> = StrMap::new();
        let mut i: usize = 0;
        proof {
            assert(nv.texts() =~= kept_values(
                Set::new(|x: Seq<char>| strs(bk@).subrange(0, 0).contains(x)),
                old_vals,
            ));
        }
        while i < bk.len()
            invariant
                i <= bk@.len(),
                old_vals == self.test_values.texts(),
                nv.texts() == kept_values(
                    Set::new(|x: Seq<char>| strs(bk@).subrange(0, i as int).contains(x)),
                    old_vals,
                ),
            decreases bk@.len() - i,
        {
            let k = &bk[i];
            let v: String = match self.test_values.get(k.as_str()) {
                Some(x) => x.clone(),
                None => String::new(),
            };
            proof {
                lemma_text_map_insert(nv@, k@, v);
            }
            nv.insert(k.clone(), v);
            proof {
                let pre = strs(bk@).subrange(0, i as int);
                let nxt = strs(bk@).subrange(0, i + 1);
                assert(nxt =~= pre.push(k@));
                assert forall|x: Seq<char>| nxt.contains(x) <==> (pre.contains(x) || x == k@) by {
                    if nxt.contains(x) {
                        let t = choose|t: int| 0 <= t < nxt.len() && nxt[t] == x;
                        if t < i {
                            assert(pre[t] == x);
                        }
                    }
                    if pre.contains(x) {
                        let t = choose|t: int| 0 <= t < pre.len() && pre[t] == x;
                        assert(nxt[t] == x);
                    }
                    assert(nxt[i as int] == k@);
                }
                assert(nv.texts() =~= kept_values(Set::new(|x: Seq<char>| nxt.contains(x)), old_vals));
            }
            i = i + 1;
        }
        proof {
            assert(strs(bk@).subrange(0, bk@.len() as int) =~= strs(bk@));
            assert(Set::new(|x: Seq<char>| strs(bk@).contains(x)) =~= ks);
        }
        self.binding_keys = bk;
        self.test_values = nv;
        self.mapped_keys = mapped;
    }

    /// Parses the keys of `seq`: those its handlers bind, nested
    /// sub-sequences included, less those that mapping lines supply;
    /// sorted and each once. Values of kept keys stay, new keys start
    /// empty, and the values of other keys go.
    pub fn parse_from_sequence(&mut self, seq: &Sequence)
        ensures
            strictly_sorted(final(self)@.keys),
            forall|x: Seq<char>|
                final(self)@.keys.contains(x) <==> free_keys(seq.step_sequence@).contains(x),
            final(self)@.values == kept_values(free_keys(seq.step_sequence@), old(self)@.values),
            final(self)@.mapped == handlers_scan(seq.step_sequence@, seq.step_sequence@.len() as int).1,
    {
        let mut keys: Vec<String> = Vec::new();
        let mut mapped: Vec<String> = Vec::new();
        collect_handlers(&seq.step_sequence, &mut keys, &mut mapped);
        proof {
            let sc = handlers_scan(seq.step_sequence@, seq.step_sequence@.len() as int);
            assert(strs(keys@) =~= sc.0);
            assert(strs(mapped@) =~= sc.1);
            assert(Set::new(|x: Seq<char>| strs(keys@).contains(x) && !strs(mapped@).contains(x))
                =~= free_keys(seq.step_sequence@));
        }
        self.settle(keys, mapped);
    }

    /// `parse_from_sequence` on a list of handlers.
    pub fn parse_from_workflow(&mut self, handlers: &[Handler])
        ensures
            strictly_sorted(final(self)@.keys),
            forall|x: Seq<char>| final(self)@.keys.contains(x) <==> free_keys(handlers@).contains(x),
            final(self)@.values == kept_values(free_keys(handlers@), old(self)@.values),
            final(self)@.mapped == handlers_scan(handlers@, handlers@.len() as int).1,
    {
        let mut keys: Vec<String> = Vec::new();
        let mut mapped: Vec<String> = Vec::new();
        let mut i: usize = 0;
        assert(strs(keys@) =~= handlers_scan(handlers@, 0).0);
        assert(strs(mapped@) =~= handlers_scan(handlers@, 0).1);
        while i < handlers.len()
            invariant
                i <= handlers@.len(),
                strs(keys@) == handlers_scan(handlers@, i as int).0,
                strs(mapped@) == handlers_scan(handlers@, i as int).1,
            decreases handlers@.len() - i,
        {
            collect_handler(&handlers[i], &mut keys, &mut mapped);
            assert(strs(keys@) =~= handlers_scan(handlers@, i + 1).0);
            assert(strs(mapped@) =~= handlers_scan(handlers@, i + 1).1);
            i = i + 1;
        }
        proof {
            assert(Set::new(|x: Seq<char>| strs(keys@).contains(x) && !strs(mapped@).contains(x))
                =~= free_keys(handlers@));
        }
        self.settle(keys, mapped);
    }

    /// Applies a change: set one value, or empty them all.
    pub fn update(&mut self, msg: TestInputMsg)
        ensures
            final(self)@.keys == old(self)@.keys,
            final(self)@.mapped == old(self)@.mapped,
            match msg {
                TestInputMsg::ValueChanged(k, v) => final(self)@.values == old(self)@.values.insert(k@, v@),
                TestInputMsg::ClearAll => final(self)@.values == Map::new(
                    |k: Seq<char>| old(self)@.values.contains_key(k),
                    |k: Seq<char>| Seq::<char>::empty(),
                ),
                TestInputMsg::RefreshKeys => final(self)@.values == old(self)@.values,
            },
    {
        match msg {
            TestInputMsg::ValueChanged(k, v) => {
                proof {
                    lemma_text_map_insert(self.test_values@, k@, v);
                }
                self.test_values.insert(k, v);
            },
            TestInputMsg::ClearAll => {
                let c = self.test_values.cleared();
                self.test_values = c;
            },
            TestInputMsg::RefreshKeys => {},
        }
    }

    /// The values to run the test with.
    pub fn get_target_data(&self) -> (r: StrMap<String>)
        ensures
            r.texts() == self@.values,
    {
        self.test_values.clone_map()
    }

    /// Whether the sequence needs any input.
    pub fn has_required_inputs(&self) -> (b: bool)
        ensures
            b == (self@.keys.len() > 0),
    {
        self.binding_keys.len() > 0
    }

    /// Whether every key has a nonempty value.
    pub fn all_filled(&self) -> (b: bool)
        ensures
            b == forall|i: int| 0 <= i < self@.keys.len() ==> is_filled(self@.values, #[trigger] self@.keys[i]),
    {
        let mut i: usize = 0;
        while i < self.binding_keys.len()
            invariant
                i <= self.binding_keys@.len(),
                forall|j: int| 0 <= j < i ==> is_filled(self@.values, #[trigger] self@.keys[j]),
            decreases self.binding_keys@.len() - i,
        {
            proof {
                assert(self@.keys[i as int] == self.binding_keys@[i as int]@);
            }
            if !self.filled(i) {
                assert(self@.keys[i as int] == self.binding_keys@[i as int]@);
                assert(!is_filled(self@.values, self@.keys[i as int]));
                return false;
            }
            i = i + 1;
        }
        true
    }

    fn filled(&self, i: usize) -> (b: bool)
        requires
            i < self.binding_keys@.len(),
        ensures
            b == is_filled(self.test_values.texts(), self.binding_keys@[i as int]@),
    {
        match self.test_values.get(self.binding_keys[i].as_str()) {
            Some(v) => !v.as_str().is_empty(),
            None => false,
        }
    }

    /// How many keys have a nonempty value.
    pub fn filled_count(&self) -> (n: usize)
        ensures
            n == filled_upto(self@.keys, self@.values, self@.keys.len() as int),
    {
        let ghost ks = strs(self.binding_keys@);
        let mut n: usize = 0;
        let mut i: usize = 0;
        while i < self.binding_keys.len()
            invariant
                i <= self.binding_keys@.len(),
                ks == strs(self.binding_keys@),
                n == filled_upto(ks, self.test_values.texts(), i as int),
                n <= i,
            decreases self.binding_keys@.len() - i,
        {
            if self.filled(i) {
                n = n + 1;
            }
            i = i + 1;
        }
        n
    }
}

} // verus!
