//! The sensor store: sensor keys mapped to their latest values, and the merge
//! of freshly collected readings into it past the exclusion filters.

use crate::matcher::{key_matches, KeyPattern};
use crate::order::{lists_sorted, sort_keys, sorted_keys, string_views};
use vstd::prelude::*;
use vstd::string::StringExecFns;

verus! {

/// Whether the keys of the entries are pairwise distinct.
pub open spec fn keys_distinct(s: Seq<(String, String)>) -> bool {
    forall|i: int, j: int|
        0 <= i < s.len() && 0 <= j < s.len() && i != j ==> (#[trigger] s[i]).0@ != (#[trigger] s[j]).0@
}

/// Whether some entry has the key.
pub open spec fn has_key(s: Seq<(String, String)>, k: Seq<char>) -> bool {
    exists|i: int| 0 <= i < s.len() && (#[trigger] s[i]).0@ == k
}

/// The mapping that a list of entries with distinct keys stands for.
pub open spec fn map_of(s: Seq<(String, String)>) -> Map<Seq<char>, Seq<char>> {
    Map::new(
        |k: Seq<char>| has_key(s, k),
        |k: Seq<char>| s[choose|i: int| 0 <= i < s.len() && (#[trigger] s[i]).0@ == k].1@,
    )
}

proof fn lemma_map_of_at(s: Seq<(String, String)>, i: int)
    requires
        keys_distinct(s),
        0 <= i < s.len(),
    ensures
        map_of(s).contains_key(s[i].0@),
        map_of(s)[s[i].0@] == s[i].1@,
{
    let k = s[i].0@;
    assert(has_key(s, k));
    let j = choose|j: int| 0 <= j < s.len() && (#[trigger] s[j]).0@ == k;
    assert(j == i);
}

proof fn lemma_map_of_push(s: Seq<(String, String)>, e: (String, String))
    requires
        keys_distinct(s),
        !has_key(s, e.0@),
    ensures
        keys_distinct(s.push(e)),
        map_of(s.push(e)) =~= map_of(s).insert(e.0@, e.1@),
{
    let t = s.push(e);
    assert forall|i: int, j: int|
        0 <= i < t.len() && 0 <= j < t.len() && i != j implies (#[trigger] t[i]).0@ != (#[trigger] t[j]).0@ by {
        if i < s.len() && j < s.len() {
            assert(t[i] == s[i] && t[j] == s[j]);
        } else if i < s.len() {
            assert(t[i] == s[i]);
        } else {
            assert(t[j] == s[j]);
        }
    }
    assert forall|k: Seq<char>| has_key(t, k) <==> (has_key(s, k) || k == e.0@) by {
        if has_key(s, k) {
            let i = choose|i: int| 0 <= i < s.len() && (#[trigger] s[i]).0@ == k;
            assert(t[i] == s[i]);
        }
        if k == e.0@ {
            assert(t[s.len() as int] == e);
        }
        if has_key(t, k) && k != e.0@ {
            let i = choose|i: int| 0 <= i < t.len() && (#[trigger] t[i]).0@ == k;
            assert(i < s.len());
            assert(t[i] == s[i]);
        }
    }
    assert forall|k: Seq<char>| #[trigger] map_of(t).contains_key(k) implies map_of(t)[k]
        == map_of(s).insert(e.0@, e.1@)[k] by {
        let i = choose|i: int| 0 <= i < t.len() && (#[trigger] t[i]).0@ == k;
        lemma_map_of_at(t, i);
        if i < s.len() {
            assert(t[i] == s[i]);
            lemma_map_of_at(s, i);
        }
    }
}

/// Whether some filter of the list matches the key.
pub open spec fn excluded(filters: Seq<KeyPattern>, key: Seq<char>) -> bool {
    exists|i: int| 0 <= i < filters.len() && key_matches((#[trigger] filters[i])@, key)
}

/// The filters that a merge applies, if any.
pub open spec fn filter_view(filter: Option<&[KeyPattern]>) -> Option<Seq<KeyPattern>> {
    match filter {
        Some(f) => Some(f@),
        None => None,
    }
}

/// Whether an optional filter list excludes the key; no list excludes nothing.
pub open spec fn excluded_by(filter: Option<Seq<KeyPattern>>, key: Seq<char>) -> bool {
    match filter {
        Some(f) => excluded(f, key),
        None => false,
    }
}

/// The readings of `source` whose keys the filter lets through.
pub open spec fn kept(
    source: Map<Seq<char>, Seq<char>>,
    filter: Option<Seq<KeyPattern>>,
) -> Map<Seq<char>, Seq<char>> {
    Map::new(|k: Seq<char>| source.contains_key(k) && !excluded_by(filter, k), |k: Seq<char>| source[k])
}

/// What a merge of `source` through `filter` makes of the store `target`:
/// every reading that passes the filter is set, every other key keeps its
/// value, and no key is removed.
pub open spec fn merged(
    target: Map<Seq<char>, Seq<char>>,
    source: Map<Seq<char>, Seq<char>>,
    filter: Option<Seq<KeyPattern>>,
) -> Map<Seq<char>, Seq<char>> {
    target.union_prefer_right(kept(source, filter))
}

/// Tells whether any of the filters matches the key.
pub fn is_filtered(key: &str, filters: &[KeyPattern]) -> (r: bool)
    ensures
        r == excluded(filters@, key@),
{
    let mut i: usize = 0;
    while i < filters.len()
        invariant
            i <= filters@.len(),
            forall|j: int| 0 <= j < i ==> !key_matches((#[trigger] filters@[j])@, key@),
        decreases filters@.len() - i,
    {
        if filters[i].is_match(key) {
            return true;
        }
        i = i + 1;
    }
    false
}

/// Merges the readings of `source` into `target`, leaving out those whose
/// key a filter matches. Keys that `source` lacks keep their values.
pub fn apply_sensor_values(
    target: &mut SensorStore,
    source: &SensorStore,
    sensor_filter: Option<&[KeyPattern]>,
)
    requires
        old(target).wf(),
        source.wf(),
    ensures
        final(target).wf(),
        final(target)@ == merged(old(target)@, source@, filter_view(sensor_filter)),
{
    let ghost fv = filter_view(sensor_filter);
    let ghost s = source.entries@;
    assert(s.take(0) =~= Seq::<(String, String)>::empty());
    assert(old(target)@.union_prefer_right(kept(map_of(s.take(0)), fv)) =~= old(target)@);
    let mut i: usize = 0;
    while i < source.entries.len()
        invariant
            s == source.entries@,
            keys_distinct(s),
            fv == filter_view(sensor_filter),
            i <= s.len(),
            target.wf(),
            target@ == old(target)@.union_prefer_right(kept(map_of(s.take(i as int)), fv)),
        decreases s.len() - i,
    {
        let ghost prev = target@;
        let skip = match sensor_filter {
            Some(filter) => is_filtered(source.entries[i].0.as_str(), filter),
            None => false,
        };
        let ghost e = s[i as int];
        proof {
            let p = s.take(i as int);
            assert(s.take(i as int + 1) =~= p.push(e));
            assert forall|a: int, b: int|
                0 <= a < p.len() && 0 <= b < p.len() && a != b implies (#[trigger] p[a]).0@ != (
                #[trigger] p[b]).0@ by {
                assert(p[a] == s[a] && p[b] == s[b]);
            }
            if has_key(p, e.0@) {
                let j = choose|j: int| 0 <= j < p.len() && (#[trigger] p[j]).0@ == e.0@;
                assert(p[j] == s[j]);
            }
            lemma_map_of_push(p, e);
        }
        if !skip {
            let key = source.entries[i].0.clone();
            let value = source.entries[i].1.clone();
            target.insert(key, value);
        }
        proof {
            let p = s.take(i as int);
            let q = s.take(i as int + 1);
            assert(skip == excluded_by(fv, e.0@));
            assert(target@ =~= old(target)@.union_prefer_right(kept(map_of(q), fv)));
        }
        i = i + 1;
    }
    assert(s.take(s.len() as int) =~= s);
}

/// A store that holds no key excluded by the filters still holds none after
/// a merge through those filters, whatever the collected readings held.
pub proof fn lemma_merge_never_admits_excluded(
    target: Map<Seq<char>, Seq<char>>,
    source: Map<Seq<char>, Seq<char>>,
    filters: Seq<KeyPattern>,
)
    requires
        forall|k: Seq<char>| #[trigger] target.contains_key(k) ==> !excluded(filters, k),
    ensures
        forall|k: Seq<char>|
            #[trigger] merged(target, source, Some(filters)).contains_key(k) ==> !excluded(filters, k),
{
}

/// A mapping from sensor key to the latest value read for it.
pub struct SensorStore {
    entries: Vec<(String, String)>,
}

impl View for SensorStore {
    type V = Map<Seq<char>, Seq<char>>;

    closed spec fn view(&self) -> Map<Seq<char>, Seq<char>> {
        map_of(self.entries@)
    }
}

impl SensorStore {
    /// The store's entries hold each key once.
    pub closed spec fn wf(&self) -> bool {
        keys_distinct(self.entries@)
    }

    /// The keys of the store, in the order in which they were first inserted.
    pub closed spec fn key_seq(&self) -> Seq<Seq<char>> {
        self.entries@.map_values(|e: (String, String)| e.0@)
    }

    pub proof fn lemma_key_seq(&self)
        requires
            self.wf(),
        ensures
            self.key_seq().no_duplicates(),
            self.key_seq().to_set() =~= self@.dom(),
    {
        let ks = self.key_seq();
        assert forall|k: Seq<char>| ks.contains(k) <==> self@.dom().contains(k) by {
            if ks.contains(k) {
                let i = choose|i: int| 0 <= i < ks.len() && ks[i] == k;
                assert(has_key(self.entries@, self.entries@[i].0@));
            }
            if self@.dom().contains(k) {
                let i = choose|i: int|
                    0 <= i < self.entries@.len() && (#[trigger] self.entries@[i]).0@ == k;
                assert(ks[i] == k);
            }
        }
    }

    pub fn new() -> (r: SensorStore)
        ensures
            r.wf(),
            r@ == Map::<Seq<char>, Seq<char>>::empty(),
    {
        let r = SensorStore { entries: Vec::new() };
        assert(r@ =~= Map::<Seq<char>, Seq<char>>::empty());
        r
    }

    pub fn len(&self) -> (r: usize)
        requires
            self.wf(),
        ensures
            r == self@.len(),
    {
        proof {
            self.lemma_key_seq();
            self.key_seq().unique_seq_to_set();
        }
        self.entries.len()
    }

    /// The index of the entry that holds `key`, if one does.
    fn find(&self, key: &str) -> (r: Option<usize>)
        requires
            self.wf(),
        ensures
            r matches Some(i) ==> i < self.entries@.len() && self.entries@[i as int].0@ == key@,
            r is None ==> !has_key(self.entries@, key@),
    {
        let wanted = key.to_owned();
        let mut i: usize = 0;
        while i < self.entries.len()
            invariant
                i <= self.entries@.len(),
                wanted@ == key@,
                forall|j: int| 0 <= j < i ==> (#[trigger] self.entries@[j]).0@ != key@,
            decreases self.entries@.len() - i,
        {
            if self.entries[i].0 == wanted {
                return Some(i);
            }
            i = i + 1;
        }
        None
    }

    /// The value held for `key`, if any.
    pub fn get(&self, key: &str) -> (r: Option<&String>)
        requires
            self.wf(),
        ensures
            r is Some <==> self@.contains_key(key@),
            r matches Some(v) ==> v@ == self@[key@],
    {
        match self.find(key) {
            Some(i) => {
                proof {
                    lemma_map_of_at(self.entries@, i as int);
                }
                Some(&self.entries[i].1)
            },
            None => None,
        }
    }

    /// Sets the value of `key`, replacing the one it had.
    pub fn insert(&mut self, key: String, value: String)
        requires
            old(self).wf(),
        ensures
            final(self).wf(),
            final(self)@ == old(self)@.insert(key@, value@),
    {
        match self.find(key.as_str()) {
            Some(i) => {
                let ghost s = self.entries@;
                let ghost k = key@;
                let ghost v = value@;
                self.entries.set(i, (key, value));
                proof {
                    let t = self.entries@;
                    assert(t =~= s.update(i as int, t[i as int]));
                    assert forall|a: int, b: int|
                        0 <= a < t.len() && 0 <= b < t.len() && a != b implies (#[trigger] t[a]).0@
                        != (#[trigger] t[b]).0@ by {
                        if a != i && b != i {
                            assert(t[a] == s[a] && t[b] == s[b]);
                        } else if a == i {
                            assert(t[b] == s[b]);
                        } else {
                            assert(t[a] == s[a]);
                        }
                    }
                    assert forall|x: Seq<char>| has_key(t, x) <==> has_key(s, x) by {
                        if has_key(t, x) {
                            let j = choose|j: int| 0 <= j < t.len() && (#[trigger] t[j]).0@ == x;
                            if j != i {
                                assert(t[j] == s[j]);
                            }
                        }
                        if has_key(s, x) {
                            let j = choose|j: int| 0 <= j < s.len() && (#[trigger] s[j]).0@ == x;
                            if j != i {
                                assert(t[j] == s[j]);
                            } else {
                                assert(t[j].0@ == x);
                            }
                        }
                    }
                    assert forall|x: Seq<char>| #[trigger] map_of(t).contains_key(x) implies map_of(t)[x]
                        == map_of(s).insert(k, v)[x] by {
                        let j = choose|j: int| 0 <= j < t.len() && (#[trigger] t[j]).0@ == x;
                        lemma_map_of_at(t, j);
                        if j != i {
                            assert(t[j] == s[j]);
                            lemma_map_of_at(s, j);
                        }
                    }
                    assert forall|x: Seq<char>| map_of(s).insert(k, v).contains_key(x) implies #[trigger] map_of(t).contains_key(x) by {
                        if x == k {
                            assert(t[i as int].0@ == x);
                            assert(has_key(t, x));
                        }
                    }
                    assert(map_of(t) =~= map_of(s).insert(k, v));
                }
            },
            None => {
                proof {
                    lemma_map_of_push(self.entries@, (key, value));
                }
                self.entries.push((key, value));
            },
        }
    }

    /// The keys of the store, in the order in which they were first inserted.
    pub fn keys(&self) -> (r: Vec<String>)
        ensures
            string_views(r@) == self.key_seq(),
    {
        let mut r: Vec<String> = Vec::new();
        let mut i: usize = 0;
        while i < self.entries.len()
            invariant
                i <= self.entries@.len(),
                string_views(r@) == self.key_seq().take(i as int),
            decreases self.entries@.len() - i,
        {
            r.push(self.entries[i].0.clone());
            assert(self.key_seq().take(i as int + 1) =~= self.key_seq().take(i as int).push(
                self.entries@[i as int].0@,
            ));
            assert(string_views(r@) =~= self.key_seq().take(i as int + 1));
            i = i + 1;
        }
        assert(self.key_seq().take(i as int) =~= self.key_seq());
        r
    }

    /// The text of a sensor file: one `key: value` line per entry, in the
    /// order of `key_seq`.
    pub fn to_lines(&self) -> (r: String)
        requires
            self.wf(),
        ensures
            r@ == sensor_lines(self.key_seq(), self@),
    {
        proof {
            reveal_strlit(": ");
            reveal_strlit("\n");
        }
        let mut out = String::new();
        let mut i: usize = 0;
        while i < self.entries.len()
            invariant
                self.wf(),
                i <= self.entries@.len(),
                out@ == sensor_lines(self.key_seq().take(i as int), self@),
            decreases self.entries@.len() - i,
        {
            proof {
                lemma_map_of_at(self.entries@, i as int);
                assert(self.key_seq().take(i as int + 1).drop_last() =~= self.key_seq().take(i as int));
            }
            out.append(self.entries[i].0.as_str());
            out.append(": ");
            out.append(self.entries[i].1.as_str());
            out.append("\n");
            i = i + 1;
        }
        assert(self.key_seq().take(i as int) =~= self.key_seq());
        out
    }

    /// The keys of the store, each once, in key order.
    pub fn sorted_keys(&self) -> (r: Vec<String>)
        requires
            self.wf(),
        ensures
            string_views(r@) == sorted_keys(self@.dom()),
            lists_sorted(string_views(r@), self@.dom()),
    {
        let mut keys = self.keys();
        proof {
            self.lemma_key_seq();
        }
        sort_keys(&mut keys);
        keys
    }
}

/// One `key: value` line for each of `keys`, with its value in `m`.
pub open spec fn sensor_lines(keys: Seq<Seq<char>>, m: Map<Seq<char>, Seq<char>>) -> Seq<char>
    decreases keys.len(),
{
    if keys.len() == 0 {
        seq![]
    } else {
        let k = keys.last();
        sensor_lines(keys.drop_last(), m) + k + ": "@ + m[k] + "\n"@
    }
}

} // verus!
