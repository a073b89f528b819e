use vstd::prelude::*;

verus! {

/// A value kept in the context store.
#[derive(Debug, PartialEq, Eq)]
pub enum DataValue {
    /// A boolean flag.
    Flag(bool),
    /// A signed number.
    Number(i64),
    /// A piece of text.
    Text(String),
}

impl Clone for DataValue {
    fn clone(&self) -> (r: Self)
        ensures
            r == *self,
    {
        match self {
            DataValue::Flag(b) => DataValue::Flag(*b),
            DataValue::Number(n) => DataValue::Number(*n),
            DataValue::Text(s) => DataValue::Text(s.clone()),
        }
    }
}

/// The mathematical contents of a store: its entries, later ones shadowing
/// earlier ones of the same key.
pub open spec fn entries_map(s: Seq<(u64, DataValue)>) -> Map<u64, DataValue>
    decreases s.len(),
{
    if s.len() == 0 {
        Map::empty()
    } else {
        entries_map(s.drop_last()).insert(s.last().0, s.last().1)
    }
}

/// A registry of tagged values under numeric keys, with an explicit
/// "not found" answer: one tier of the framework's context store.
#[derive(Debug)]
pub struct DataMap {
    entries: Vec<(u64, DataValue)>,
}

impl View for DataMap {
    type V = Map<u64, DataValue>;

    closed spec fn view(&self) -> Map<u64, DataValue> {
        entries_map(self.entries@)
    }
}

/// No key occurs twice in the entry list.
spec fn entries_wf(s: Seq<(u64, DataValue)>) -> bool {
    forall|i: int, j: int|
        0 <= i < j < s.len() ==> (#[trigger] s[i]).0 != (#[trigger] s[j]).0
}

/// For one key, the entry positions agree with the map contents.
proof fn lemma_entries_key(s: Seq<(u64, DataValue)>, key: u64)
    ensures
        entries_map(s).contains_key(key) <==> (exists|i: int|
            0 <= i < s.len() && (#[trigger] s[i]).0 == key),
        entries_wf(s) ==> forall|i: int|
            0 <= i < s.len() && (#[trigger] s[i]).0 == key ==> entries_map(s)[key] == s[i].1,
    decreases s.len(),
{
    if s.len() > 0 {
        let dl = s.drop_last();
        lemma_entries_key(dl, key);
        if entries_map(s).contains_key(key) {
            if key == s.last().0 {
                assert((#[trigger] s[s.len() - 1]).0 == key);
            } else {
                let i = choose|i: int| 0 <= i < dl.len() && (#[trigger] dl[i]).0 == key;
                assert((#[trigger] s[i]).0 == key);
            }
        }
        if exists|i: int| 0 <= i < s.len() && (#[trigger] s[i]).0 == key {
            let i = choose|i: int| 0 <= i < s.len() && (#[trigger] s[i]).0 == key;
            if i < s.len() - 1 {
                assert((#[trigger] dl[i]).0 == key);
            }
        }
        if entries_wf(s) {
            assert(entries_wf(dl));
            assert forall|i: int|
                0 <= i < s.len() && (#[trigger] s[i]).0 == key implies entries_map(s)[key]
                == s[i].1 by {
                if i < s.len() - 1 {
                    assert((#[trigger] dl[i]).0 == key);
                    assert((#[trigger] s[s.len() - 1]).0 != key);
                }
            }
        }
    }
}

/// Filtering out one key removes exactly that key from the contents, and
/// keeps the remaining keys distinct.
proof fn lemma_filtered_map(s: Seq<(u64, DataValue)>, key: u64)
    requires
        entries_wf(s),
    ensures
        entries_map(s.filter(|e: (u64, DataValue)| e.0 != key)) == entries_map(s).remove(key),
        entries_wf(s.filter(|e: (u64, DataValue)| e.0 != key)),
    decreases s.len(),
{
    let p = |e: (u64, DataValue)| e.0 != key;
    reveal(Seq::filter);
    #[allow(deprecated)]
    s.filter_lemma(p);
    if s.len() == 0 {
        assert(entries_map(s.filter(p)) =~= entries_map(s).remove(key));
    } else {
        let dl = s.drop_last();
        lemma_filtered_map(dl, key);
        #[allow(deprecated)]
        dl.filter_lemma(p);
        if p(s.last()) {
            assert(s.filter(p) == dl.filter(p).push(s.last()));
            assert(dl.filter(p).push(s.last()).drop_last() =~= dl.filter(p));
            assert(entries_map(s.filter(p)) == entries_map(dl.filter(p)).insert(
                s.last().0,
                s.last().1,
            ));
            assert(entries_map(s.filter(p)) =~= entries_map(s).remove(key));
            assert forall|i: int, j: int|
                0 <= i < j < s.filter(p).len() implies (#[trigger] s.filter(p)[i]).0 != (
            #[trigger] s.filter(p)[j]).0 by {
                if j < s.filter(p).len() - 1 {
                    assert(s.filter(p)[i] == dl.filter(p)[i]);
                    assert(s.filter(p)[j] == dl.filter(p)[j]);
                } else {
                    assert(s.filter(p)[i] == dl.filter(p)[i]);
                    assert(dl.filter(p).contains(dl.filter(p)[i]));
                    lemma_filter_member(dl, p, i);
                }
            }
        } else {
            assert(s.filter(p) == dl.filter(p));
            assert(entries_map(s).remove(key) =~= entries_map(dl).remove(key));
        }
    }
}

/// Every element of a filtered list comes from the original list.
proof fn lemma_filter_member(s: Seq<(u64, DataValue)>, p: spec_fn((u64, DataValue)) -> bool, i: int)
    requires
        0 <= i < s.filter(p).len(),
    ensures
        exists|j: int| 0 <= j < s.len() && s[j] == #[trigger] s.filter(p)[i],
    decreases s.len(),
{
    reveal(Seq::filter);
    if s.len() > 0 {
        let dl = s.drop_last();
        if p(s.last()) && i == s.filter(p).len() - 1 {
            assert(s[s.len() - 1] == s.filter(p)[i]);
        } else {
            lemma_filter_member(dl, p, i);
            let j = choose|j: int| 0 <= j < dl.len() && dl[j] == #[trigger] dl.filter(p)[i];
            assert(s[j] == s.filter(p)[i]);
        }
    }
}

impl DataMap {
    /// Every reachable store keeps one entry per key.
    pub closed spec fn wf(self) -> bool {
        entries_wf(self.entries@)
    }

    /// A fresh, empty store.
    pub fn new() -> (r: DataMap)
        ensures
            r@ == Map::<u64, DataValue>::empty(),
            r.wf(),
    {
        DataMap { entries: Vec::new() }
    }

    /// Whether the store holds a value under `key`.
    pub fn contains_key(&self, key: u64) -> (r: bool)
        ensures
            r == self@.contains_key(key),
    {
        let mut i: usize = 0;
        while i < self.entries.len()
            invariant
                0 <= i <= self.entries@.len(),
                forall|j: int| 0 <= j < i ==> (#[trigger] self.entries@[j]).0 != key,
            decreases self.entries@.len() - i,
        {
            if self.entries[i].0 == key {
                proof {
                    lemma_entries_key(self.entries@, key);
                }
                return true;
            }
            i = i + 1;
        }
        proof {
            lemma_entries_key(self.entries@, key);
        }
        false
    }

    /// The value stored under `key`, or nothing.
    pub fn get(&self, key: u64) -> (r: Option<&DataValue>)
        requires
            self.wf(),
        ensures
            r is Some <==> self@.contains_key(key),
            r matches Some(v) ==> self@.contains_key(key) && *v == self@[key],
    {
        let mut i: usize = 0;
        while i < self.entries.len()
            invariant
                self.wf(),
                0 <= i <= self.entries@.len(),
                forall|j: int| 0 <= j < i ==> (#[trigger] self.entries@[j]).0 != key,
            decreases self.entries@.len() - i,
        {
            if self.entries[i].0 == key {
                proof {
                    lemma_entries_key(self.entries@, key);
                }
                return Some(&self.entries[i].1);
            }
            i = i + 1;
        }
        proof {
            lemma_entries_key(self.entries@, key);
        }
        None
    }

    /// Store `value` under `key`, replacing what was there.
    pub fn insert(&mut self, key: u64, value: DataValue)
        requires
            old(self).wf(),
        ensures
            final(self)@ == old(self)@.insert(key, value),
            final(self).wf(),
    {
        self.remove_entries(key);
        self.entries.push((key, value));
        proof {
            let p = |e: (u64, DataValue)| e.0 != key;
            let filtered = old(self).entries@.filter(p);
            lemma_filtered_map(old(self).entries@, key);
            assert(self.entries@.drop_last() =~= filtered);
            assert(self@ =~= old(self)@.insert(key, value));
            #[allow(deprecated)]
            old(self).entries@.filter_lemma(p);
            assert forall|i: int, j: int|
                0 <= i < j < self.entries@.len() implies (#[trigger] self.entries@[i]).0 != (
            #[trigger] self.entries@[j]).0 by {
                if j < self.entries@.len() - 1 {
                    assert(self.entries@[i] == filtered[i]);
                    assert(self.entries@[j] == filtered[j]);
                } else {
                    assert(self.entries@[i] == filtered[i]);
                }
            }
        }
    }

    /// Take the value under `key` out of the store and return it.
    pub fn remove(&mut self, key: u64) -> (r: Option<DataValue>)
        requires
            old(self).wf(),
        ensures
            final(self)@ == old(self)@.remove(key),
            final(self).wf(),
            r is Some <==> old(self)@.contains_key(key),
            r matches Some(v) ==> old(self)@.contains_key(key) && v == old(self)@[key],
    {
        self.remove_entries(key)
    }

    /// The removal itself, with the entry-level account that `insert`
    /// builds on.
    fn remove_entries(&mut self, key: u64) -> (r: Option<DataValue>)
        requires
            old(self).wf(),
        ensures
            final(self)@ == old(self)@.remove(key),
            final(self).wf(),
            r is Some <==> old(self)@.contains_key(key),
            r matches Some(v) ==> old(self)@.contains_key(key) && v == old(self)@[key],
            final(self).entries@ == old(self).entries@.filter(|e: (u64, DataValue)| e.0 != key),
    {
        proof {
            lemma_entries_key(self.entries@, key);
            lemma_filtered_map(self.entries@, key);
        }
        let mut out: Vec<(u64, DataValue)> = Vec::new();
        let mut found: Option<DataValue> = None;
        let mut i: usize = 0;
        let n: usize = self.entries.len();
        while i < n
            invariant
                0 <= i <= n,
                n == self.entries@.len(),
                self.wf(),
                self == old(self),
                out@ == self.entries@.take(i as int).filter(|e: (u64, DataValue)| e.0 != key),
                found is Some <==> exists|j: int|
                    0 <= j < i && (#[trigger] self.entries@[j]).0 == key,
                found matches Some(v) ==> exists|j: int|
                    0 <= j < i && (#[trigger] self.entries@[j]).0 == key && self.entries@[j].1 == v,
            decreases n - i,
        {
            proof {
                reveal(Seq::filter);
                assert(self.entries@.take(i + 1).drop_last() =~= self.entries@.take(i as int));
            }
            let e_key: u64 = self.entries[i].0;
            if e_key == key {
                found = Some(self.entries[i].1.clone());
            } else {
                let v = self.entries[i].1.clone();
                out.push((e_key, v));
            }
            proof {
                assert(out@ =~= self.entries@.take(i + 1).filter(
                    |e: (u64, DataValue)| e.0 != key,
                ));
            }
            i = i + 1;
        }
        proof {
            assert(self.entries@.take(n as int) =~= self.entries@);
        }
        self.entries = out;
        found
    }
}

impl Clone for DataMap {
    fn clone(&self) -> (r: Self)
        ensures
            r@ == self@,
            self.wf() ==> r.wf(),
    {
        let mut out: Vec<(u64, DataValue)> = Vec::new();
        let mut i: usize = 0;
        while i < self.entries.len()
            invariant
                0 <= i <= self.entries@.len(),
                out@ == self.entries@.take(i as int),
            decreases self.entries@.len() - i,
        {
            let e_key: u64 = self.entries[i].0;
            let v = self.entries[i].1.clone();
            out.push((e_key, v));
            proof {
                assert(out@ =~= self.entries@.take(i + 1));
            }
            i = i + 1;
        }
        proof {
            assert(out@ =~= self.entries@);
        }
        DataMap { entries: out }
    }
}

impl Default for DataMap {
    fn default() -> (r: DataMap)
        ensures
            r@ == Map::<u64, DataValue>::empty(),
            r.wf(),
    {
        DataMap::new()
    }
}

/// The two tiers of the framework's context store: `global` survives grid
/// replacement and history restores; `state` is saved and restored with
/// history snapshots.
#[derive(Debug)]
pub struct FrameworkData {
    pub global: DataMap,
    pub state: DataMap,
}

impl FrameworkData {
    /// Both tiers are well-formed.
    pub open spec fn wf(self) -> bool {
        self.global.wf() && self.state.wf()
    }

    /// Build a store from its two tiers.
    pub fn from_parts(global: DataMap, state: DataMap) -> (r: FrameworkData)
        ensures
            r.global == global,
            r.state == state,
    {
        FrameworkData { global, state }
    }
}

impl Clone for FrameworkData {
    fn clone(&self) -> (r: Self)
        ensures
            r.global@ == self.global@,
            r.state@ == self.state@,
            self.wf() ==> r.wf(),
    {
        FrameworkData { global: self.global.clone(), state: self.state.clone() }
    }
}

impl Default for FrameworkData {
    fn default() -> (r: FrameworkData)
        ensures
            r.global@ == Map::<u64, DataValue>::empty(),
            r.state@ == Map::<u64, DataValue>::empty(),
            r.wf(),
    {
        FrameworkData { global: DataMap::new(), state: DataMap::new() }
    }
}

} // verus!
