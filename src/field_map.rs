//! An insertion-ordered map from field names to string values, used for a
//! venue's provenance and for the fields extracted from a page.
use vstd::prelude::*;

verus! {

broadcast use vstd::string::group_string_axioms;

/// The map that a sequence of key/value pairs spells, later pairs winning.
pub open spec fn pairs_map(p: Seq<(Seq<char>, Seq<char>)>) -> Map<Seq<char>, Seq<char>>
    decreases p.len(),
{
    if p.len() == 0 {
        Map::empty()
    } else {
        pairs_map(p.drop_last()).insert(p.last().0, p.last().1)
    }
}

/// Whether no key occurs twice among the pairs.
pub open spec fn distinct_keys(p: Seq<(Seq<char>, Seq<char>)>) -> bool {
    forall|i: int, j: int| 0 <= i < j < p.len() ==> #[trigger] p[i].0 != #[trigger] p[j].0
}

/// Every pair's key maps to the pair's value.
pub proof fn lemma_pairs_lookup(p: Seq<(Seq<char>, Seq<char>)>, i: int)
    requires
        distinct_keys(p),
        0 <= i < p.len(),
    ensures
        pairs_map(p).contains_key(p[i].0),
        pairs_map(p)[p[i].0] == p[i].1,
    decreases p.len(),
{
    if i < p.len() - 1 {
        assert(p.drop_last()[i] == p[i]);
        assert(distinct_keys(p.drop_last())) by {
            assert forall|a: int, b: int| 0 <= a < b < p.drop_last().len() implies #[trigger] p.drop_last()[a].0
                != #[trigger] p.drop_last()[b].0 by {
                assert(p.drop_last()[a] == p[a]);
                assert(p.drop_last()[b] == p[b]);
            }
        }
        lemma_pairs_lookup(p.drop_last(), i);
        assert(p[i].0 != p[p.len() - 1].0);
    }
}

/// A key that no pair carries is not in the map.
pub proof fn lemma_pairs_absent(p: Seq<(Seq<char>, Seq<char>)>, k: Seq<char>)
    requires
        forall|i: int| 0 <= i < p.len() ==> (#[trigger] p[i]).0 != k,
    ensures
        !pairs_map(p).contains_key(k),
    decreases p.len(),
{
    if p.len() > 0 {
        assert forall|i: int| 0 <= i < p.drop_last().len() implies (
        #[trigger] p.drop_last()[i]).0 != k by {
            assert(p.drop_last()[i] == p[i]);
        }
        lemma_pairs_absent(p.drop_last(), k);
        assert(p[p.len() - 1].0 != k);
    }
}

proof fn lemma_distinct_drop_last(p: Seq<(Seq<char>, Seq<char>)>)
    requires
        distinct_keys(p),
        p.len() > 0,
    ensures
        distinct_keys(p.drop_last()),
{
    assert forall|a: int, b: int| 0 <= a < b < p.drop_last().len() implies #[trigger] p.drop_last()[a].0
        != #[trigger] p.drop_last()[b].0 by {
        assert(p.drop_last()[a] == p[a]);
        assert(p.drop_last()[b] == p[b]);
    }
}

/// Replacing the value of one pair replaces it in the map.
pub proof fn lemma_pairs_update(p: Seq<(Seq<char>, Seq<char>)>, i: int, v: Seq<char>)
    requires
        distinct_keys(p),
        0 <= i < p.len(),
    ensures
        pairs_map(p.update(i, (p[i].0, v))) == pairs_map(p).insert(p[i].0, v),
    decreases p.len(),
{
    let q = p.update(i, (p[i].0, v));
    if i == p.len() - 1 {
        assert(q.drop_last() =~= p.drop_last());
        assert(pairs_map(q) =~= pairs_map(p).insert(p[i].0, v));
    } else {
        lemma_distinct_drop_last(p);
        assert(q.drop_last() =~= p.drop_last().update(i, (p[i].0, v)));
        assert(p.drop_last()[i] == p[i]);
        lemma_pairs_update(p.drop_last(), i, v);
        assert(p[i].0 != p.last().0);
        assert(q.last() == p.last());
        assert(pairs_map(q) =~= pairs_map(p).insert(p[i].0, v));
    }
}

/// The map has exactly one key per pair.
pub proof fn lemma_pairs_size(p: Seq<(Seq<char>, Seq<char>)>)
    requires
        distinct_keys(p),
    ensures
        pairs_map(p).dom().finite(),
        pairs_map(p).dom().len() == p.len(),
    decreases p.len(),
{
    if p.len() > 0 {
        lemma_distinct_drop_last(p);
        lemma_pairs_size(p.drop_last());
        assert forall|i: int| 0 <= i < p.drop_last().len() implies (
        #[trigger] p.drop_last()[i]).0 != p.last().0 by {
            assert(p.drop_last()[i] == p[i]);
        }
        lemma_pairs_absent(p.drop_last(), p.last().0);
    }
}

/// The key/value pairs of `v` as character sequences.
pub open spec fn entries_view(v: Seq<(String, String)>) -> Seq<(Seq<char>, Seq<char>)> {
    v.map_values(|e: (String, String)| (e.0@, e.1@))
}

/// Field names mapped to values, in the order in which each name first came.
#[derive(Debug)]
pub struct FieldMap {
    entries: Vec<(String, String)>,
}

impl View for FieldMap {
    type V = Map<Seq<char>, Seq<char>>;

    open spec fn view(&self) -> Map<Seq<char>, Seq<char>> {
        pairs_map(self.pairs())
    }
}

impl FieldMap {
    /// The entries in order, as key/value pairs of character sequences.
    pub closed spec fn pairs(&self) -> Seq<(Seq<char>, Seq<char>)> {
        entries_view(self.entries@)
    }

    /// Well-formed: no key occurs twice.
    pub open spec fn wf(&self) -> bool {
        distinct_keys(self.pairs())
    }

    /// An empty map.
    pub fn new() -> (r: FieldMap)
        ensures
            r.wf(),
            r.pairs() == Seq::<(Seq<char>, Seq<char>)>::empty(),
            r@ == Map::<Seq<char>, Seq<char>>::empty(),
    {
        let r = FieldMap { entries: Vec::new() };
        proof {
            assert(r.pairs() =~= Seq::<(Seq<char>, Seq<char>)>::empty());
        }
        r
    }

    /// The number of entries.
    pub fn len(&self) -> (r: usize)
        requires
            self.wf(),
        ensures
            r == self.pairs().len(),
            r == self@.dom().len(),
            self@.dom().finite(),
    {
        proof {
            lemma_pairs_size(self.pairs());
        }
        self.entries.len()
    }

    /// Whether the map has no entry.
    pub fn is_empty(&self) -> (r: bool)
        requires
            self.wf(),
        ensures
            r == (self.pairs().len() == 0),
            r == (self@.dom().len() == 0),
    {
        self.len() == 0
    }

    /// The key of the entry at `i`.
    pub fn key_at(&self, i: usize) -> (r: &String)
        requires
            i < self.pairs().len(),
        ensures
            r@ == self.pairs()[i as int].0,
    {
        &self.entries[i].0
    }

    /// The value of the entry at `i`.
    pub fn value_at(&self, i: usize) -> (r: &String)
        requires
            i < self.pairs().len(),
        ensures
            r@ == self.pairs()[i as int].1,
    {
        &self.entries[i].1
    }

    fn index_of(&self, key: &String) -> (r: Option<usize>)
        ensures
            r is Some ==> r->0 < self.pairs().len() && self.pairs()[r->0 as int].0 == key@,
            r is None ==> forall|i: int| 0 <= i < self.pairs().len() ==> (#[trigger] self.pairs()[i]).0 != key@,
    {
        let mut i: usize = 0;
        while i < self.entries.len()
            invariant
                i <= self.entries.len(),
                self.pairs().len() == self.entries.len(),
                forall|j: int| 0 <= j < i ==> (#[trigger] self.pairs()[j]).0 != key@,
            decreases self.entries.len() - i,
        {
            if self.entries[i].0 == *key {
                return Some(i);
            }
            i = i + 1;
        }
        None
    }

    /// The value stored under `key`, if any.
    pub fn get(&self, key: &str) -> (r: Option<&String>)
        requires
            self.wf(),
        ensures
            r is Some <==> self@.contains_key(key@),
            r is Some ==> r->0@ == self@[key@],
    {
        let k = String::from_str(key);
        match self.index_of(&k) {
            Some(i) => {
                proof {
                    lemma_pairs_lookup(self.pairs(), i as int);
                }
                Some(&self.entries[i].1)
            },
            None => {
                proof {
                    lemma_pairs_absent(self.pairs(), key@);
                }
                None
            },
        }
    }

    /// Whether `key` has an entry.
    pub fn contains_key(&self, key: &str) -> (r: bool)
        requires
            self.wf(),
        ensures
            r == self@.contains_key(key@),
    {
        self.get(key).is_some()
    }

    /// Stores `value` under `key`: an existing entry keeps its place and takes
    /// the new value, a new key comes last.
    pub fn insert(&mut self, key: String, value: String)
        requires
            old(self).wf(),
        ensures
            final(self).wf(),
            final(self)@ == old(self)@.insert(key@, value@),
            old(self)@.contains_key(key@) ==> final(self).pairs().len() == old(self).pairs().len(),
            !old(self)@.contains_key(key@) ==> final(self).pairs() == old(self).pairs().push(
                (key@, value@),
            ),
    {
        match self.index_of(&key) {
            Some(i) => {
                proof {
                    lemma_pairs_lookup(self.pairs(), i as int);
                    lemma_pairs_update(self.pairs(), i as int, value@);
                }
                let ghost before = self.pairs();
                self.entries.set(i, (key, value));
                proof {
                    assert(self.pairs() =~= before.update(i as int, (before[i as int].0, value@)));
                }
            },
            None => {
                proof {
                    lemma_pairs_absent(self.pairs(), key@);
                }
                let ghost before = self.pairs();
                self.entries.push((key, value));
                proof {
                    assert(self.pairs() =~= before.push((key@, value@)));
                    assert(self.pairs().drop_last() =~= before);
                }
            },
        }
    }

    /// Stores every entry of `other`, in its order; on a shared key the value
    /// of `other` wins.
    pub fn extend(&mut self, other: &FieldMap)
        requires
            old(self).wf(),
            other.wf(),
        ensures
            final(self).wf(),
            final(self)@ == old(self)@.union_prefer_right(other@),
    {
        let n = other.entries.len();
        let mut i: usize = 0;
        while i < n
            invariant
                n == other.pairs().len(),
                distinct_keys(other.pairs()),
                self.wf(),
                i <= n,
                self@ == old(self)@.union_prefer_right(pairs_map(other.pairs().take(i as int))),
            decreases n - i,
        {
            let k = other.entries[i].0.clone();
            let v = other.entries[i].1.clone();
            self.insert(k, v);
            proof {
                let t = other.pairs().take(i + 1);
                assert(t.drop_last() =~= other.pairs().take(i as int));
                assert(t.last() == other.pairs()[i as int]);
                assert(self@ =~= old(self)@.union_prefer_right(pairs_map(t)));
            }
            i = i + 1;
        }
        proof {
            assert(other.pairs().take(n as int) =~= other.pairs());
        }
    }
}

impl Clone for FieldMap {
    fn clone(&self) -> (r: FieldMap)
        ensures
            self.wf() ==> r.wf(),
            r.pairs() == self.pairs(),
            r@ == self@,
    {
        let mut out: Vec<(String, String)> = Vec::new();
        let mut i: usize = 0;
        while i < self.entries.len()
            invariant
                i <= self.entries.len(),
                out.len() == i,
                self.pairs().len() == self.entries.len(),
                entries_view(out@) == self.pairs().take(i as int),
            decreases self.entries.len() - i,
        {
            let k = self.entries[i].0.clone();
            let v = self.entries[i].1.clone();
            let ghost before = out@;
            out.push((k, v));
            proof {
                assert(self.pairs()[i as int] == (k@, v@));
                assert(out@ == before.push((k, v)));
                assert forall|j: int| 0 <= j < i + 1 implies #[trigger] entries_view(out@)[j]
                    == self.pairs().take(i + 1)[j] by {
                    if j < i {
                        assert(entries_view(before)[j] == self.pairs().take(i as int)[j]);
                        assert(out@[j] == before[j]);
                    }
                }
                assert(entries_view(out@) =~= self.pairs().take(i + 1));
            }
            i = i + 1;
        }
        proof {
            assert(self.pairs().take(i as int) =~= self.pairs());
        }
        FieldMap { entries: out }
    }
}

} // verus!
