//! A map from strings to strings (environment variables and the like).
use vstd::prelude::*;

use crate::text::str_eq;

verus! {

/// The map that a list of pairs describes, later pairs overriding earlier ones.
pub open spec fn map_of(s: Seq<(Seq<char>, Seq<char>)>) -> Map<Seq<char>, Seq<char>>
    decreases s.len(),
{
    if s.len() == 0 {
        Map::empty()
    } else {
        map_of(s.drop_last()).insert(s.last().0, s.last().1)
    }
}

/// No key occurs twice.
pub open spec fn keys_unique(s: Seq<(Seq<char>, Seq<char>)>) -> bool {
    forall|i: int, j: int| 0 <= i < j < s.len() ==> #[trigger] s[i].0 != #[trigger] s[j].0
}

pub open spec fn pairs_view(v: Seq<(String, String)>) -> Seq<(Seq<char>, Seq<char>)> {
    v.map_values(|p: (String, String)| (p.0@, p.1@))
}

/// A string-to-string map. Its entries keep the order in which keys were first
/// inserted; each key occurs once.
pub struct StrMap {
    entries: Vec<(String, String)>,
}

impl View for StrMap {
    type V = Map<Seq<char>, Seq<char>>;

    closed spec fn view(&self) -> Map<Seq<char>, Seq<char>> {
        map_of(pairs_view(self.entries@))
    }
}

pub proof fn lemma_map_of_key(s: Seq<(Seq<char>, Seq<char>)>, i: int)
    requires
        keys_unique(s),
        0 <= i < s.len(),
    ensures
        map_of(s).contains_key(s[i].0),
        map_of(s)[s[i].0] == s[i].1,
    decreases s.len(),
{
    if i < s.len() - 1 {
        let t = s.drop_last();
        assert(t[i] == s[i]);
        assert(keys_unique(t)) by {
            assert forall|a: int, b: int| 0 <= a < b < t.len() implies #[trigger] t[a].0
                != #[trigger] t[b].0 by {
                assert(t[a] == s[a] && t[b] == s[b]);
            }
        }
        lemma_map_of_key(t, i);
        assert(s[i].0 != s[s.len() - 1].0);
    }
}

pub proof fn lemma_map_of_absent(s: Seq<(Seq<char>, Seq<char>)>, k: Seq<char>)
    requires
        forall|i: int| 0 <= i < s.len() ==> #[trigger] s[i].0 != k,
    ensures
        !map_of(s).contains_key(k),
    decreases s.len(),
{
    if s.len() > 0 {
        let t = s.drop_last();
        assert forall|i: int| 0 <= i < t.len() implies #[trigger] t[i].0 != k by {
            assert(t[i] == s[i]);
        }
        lemma_map_of_absent(t, k);
    }
}

pub proof fn lemma_map_of_dom(s: Seq<(Seq<char>, Seq<char>)>, k: Seq<char>)
    ensures
        map_of(s).contains_key(k) <==> exists|i: int| 0 <= i < s.len() && #[trigger] s[i].0 == k,
    decreases s.len(),
{
    if s.len() > 0 {
        let t = s.drop_last();
        lemma_map_of_dom(t, k);
        if map_of(s).contains_key(k) {
            if k == s.last().0 {
                assert(s[s.len() - 1].0 == k);
            } else {
                let i = choose|i: int| 0 <= i < t.len() && #[trigger] t[i].0 == k;
                assert(s[i] == t[i]);
            }
        }
        if exists|i: int| 0 <= i < s.len() && #[trigger] s[i].0 == k {
            let i = choose|i: int| 0 <= i < s.len() && #[trigger] s[i].0 == k;
            if i < s.len() - 1 {
                assert(t[i] == s[i]);
            }
        }
    }
}

impl StrMap {
    #[verifier::type_invariant]
    spec fn wf(&self) -> bool {
        keys_unique(pairs_view(self.entries@))
    }

    /// An empty map.
    pub fn new() -> (m: StrMap)
        ensures
            m@ == Map::<Seq<char>, Seq<char>>::empty(),
    {
        let m = StrMap { entries: Vec::new() };
        assert(pairs_view(m.entries@) =~= Seq::<(Seq<char>, Seq<char>)>::empty());
        m
    }

    /// Position of key `k`, if present.
    fn find(&self, k: &str) -> (r: Option<usize>)
        ensures
            r matches Some(i) ==> i < self.entries@.len() && self.entries@[i as int].0@ == k@,
            r is None ==> forall|i: int|
                0 <= i < self.entries@.len() ==> #[trigger] self.entries@[i].0@ != k@,
    {
        let mut i: usize = 0;
        while i < self.entries.len()
            invariant
                i <= self.entries.len(),
                forall|j: int| 0 <= j < i ==> #[trigger] self.entries@[j].0@ != k@,
            decreases self.entries.len() - i,
        {
            if str_eq(self.entries[i].0.as_str(), k) {
                return Some(i);
            }
            i = i + 1;
        }
        None
    }

    /// The value of key `k`, if present.
    pub fn get(&self, k: &str) -> (r: Option<&String>)
        ensures
            r matches Some(v) ==> self@.contains_key(k@) && self@[k@] == v@,
            r is None ==> !self@.contains_key(k@),
    {
        proof {
            use_type_invariant(self);
        }
        let ghost s = pairs_view(self.entries@);
        match self.find(k) {
            Some(i) => {
                proof {
                    assert(s[i as int] == (self.entries@[i as int].0@, self.entries@[i as int].1@));
                    lemma_map_of_key(s, i as int);
                }
                Some(&self.entries[i].1)
            },
            None => {
                proof {
                    assert forall|j: int| 0 <= j < s.len() implies #[trigger] s[j].0 != k@ by {
                        assert(s[j].0 == self.entries@[j].0@);
                    }
                    lemma_map_of_absent(s, k@);
                }
                None
            },
        }
    }

    /// Sets key `k` to `v`, replacing any earlier value.
    pub fn insert(&mut self, k: String, v: String)
        ensures
            final(self)@ == old(self)@.insert(k@, v@),
    {
        proof {
            use_type_invariant(&*self);
        }
        let ghost s0 = pairs_view(self.entries@);
        match self.find(k.as_str()) {
            Some(i) => {
                let ghost kv = k@;
                let ghost vv = v@;
                let mut entries: Vec<(String, String)> = Vec::new();
                std::mem::swap(&mut entries, &mut self.entries);
                entries.set(i, (k, v));
                let ghost s1 = pairs_view(entries@);
                proof {
                    assert(s1 =~= s0.update(i as int, (kv, vv)));
                    assert(keys_unique(s1)) by {
                        assert forall|a: int, b: int| 0 <= a < b < s1.len() implies #[trigger] s1[a].0
                            != #[trigger] s1[b].0 by {
                            if a != i && b != i {
                                assert(s1[a] == s0[a] && s1[b] == s0[b]);
                            } else if a == i {
                                assert(s1[b] == s0[b]);
                                assert(s0[i as int].0 == kv);
                            } else {
                                assert(s1[a] == s0[a]);
                                assert(s0[i as int].0 == kv);
                            }
                        }
                    }
                    assert forall|key: Seq<char>| #![auto] map_of(s1).contains_key(key)
                        == map_of(s0).insert(kv, vv).contains_key(key) by {
                        lemma_map_of_dom(s1, key);
                        lemma_map_of_dom(s0, key);
                        if key != kv && map_of(s0).contains_key(key) {
                            let j = choose|j: int| 0 <= j < s0.len() && #[trigger] s0[j].0 == key;
                            assert(s1[j] == s0[j]);
                        }
                        if key != kv && map_of(s1).contains_key(key) {
                            let j = choose|j: int| 0 <= j < s1.len() && #[trigger] s1[j].0 == key;
                            assert(s1[j] == s0[j]);
                        }
                        if key == kv {
                            assert(s1[i as int].0 == kv);
                        }
                    }
                    assert forall|key: Seq<char>| #[trigger] map_of(s1).contains_key(key) implies map_of(
                        s1,
                    )[key] == map_of(s0).insert(kv, vv)[key] by {
                        lemma_map_of_dom(s1, key);
                        let j = choose|j: int| 0 <= j < s1.len() && #[trigger] s1[j].0 == key;
                        lemma_map_of_key(s1, j);
                        assert(s1[i as int].0 == kv);
                        if key == kv {
                            if j != i {
                                assert(s1[j].0 == s1[i as int].0);
                            }
                            assert(s1[j].1 == vv);
                        } else {
                            assert(j != i);
                            assert(s1[j] == s0[j]);
                            lemma_map_of_key(s0, j);
                        }
                    }
                    assert(map_of(s1) =~= map_of(s0).insert(kv, vv));
                }
                self.entries = entries;
            },
            None => {
                let ghost kv = k@;
                assert forall|a: int| 0 <= a < s0.len() implies #[trigger] s0[a].0 != kv by {
                    assert(s0[a].0 == self.entries@[a].0@);
                }
                let ghost vv = v@;
                let mut entries: Vec<(String, String)> = Vec::new();
                std::mem::swap(&mut entries, &mut self.entries);
                entries.push((k, v));
                let ghost s1 = pairs_view(entries@);
                proof {
                    assert(s1 =~= s0.push((kv, vv)));
                    assert(s1.drop_last() =~= s0);
                    assert(keys_unique(s1)) by {
                        assert forall|a: int, b: int| 0 <= a < b < s1.len() implies #[trigger] s1[a].0
                            != #[trigger] s1[b].0 by {
                            if b < s0.len() {
                                assert(s1[a] == s0[a] && s1[b] == s0[b]);
                            } else {
                                assert(s1[a] == s0[a]);
                            }
                        }
                    }
                }
                self.entries = entries;
            },
        }
    }

    /// The entries, in the order in which their keys were first inserted.
    pub fn entries(&self) -> (r: &Vec<(String, String)>)
        ensures
            map_of(pairs_view(r@)) == self@,
            keys_unique(pairs_view(r@)),
    {
        proof {
            use_type_invariant(self);
        }
        &self.entries
    }

    /// Adds every entry of `other`, its values overriding this map's.
    pub fn extend(&mut self, other: &StrMap)
        ensures
            final(self)@ == old(self)@.union_prefer_right(other@),
    {
        let es = other.entries();
        let mut i: usize = 0;
        let ghost s = pairs_view(es@);
        proof {
            assert(s.take(0) =~= Seq::<(Seq<char>, Seq<char>)>::empty());
            assert(old(self)@.union_prefer_right(map_of(s.take(0))) =~= old(self)@);
        }
        while i < es.len()
            invariant
                i <= es.len(),
                s == pairs_view(es@),
                map_of(s) == other@,
                self@ == old(self)@.union_prefer_right(map_of(s.take(i as int))),
            decreases es.len() - i,
        {
            let k = es[i].0.clone();
            let v = es[i].1.clone();
            proof {
                assert(s.take(i + 1).drop_last() =~= s.take(i as int));
                assert(s.take(i + 1).last() == (k@, v@));
            }
            self.insert(k, v);
            proof {
                assert(self@ =~= old(self)@.union_prefer_right(map_of(s.take(i + 1))));
            }
            i = i + 1;
        }
        proof {
            assert(s.take(es@.len() as int) =~= s);
        }
    }

    /// The map of a list of pairs, later pairs overriding earlier ones.
    pub fn from_pairs(pairs: Vec<(String, String)>) -> (m: StrMap)
        ensures
            m@ == map_of(pairs_view(pairs@)),
    {
        let mut m = StrMap::new();
        let ghost s = pairs_view(pairs@);
        let mut i: usize = 0;
        proof {
            assert(s.take(0) =~= Seq::<(Seq<char>, Seq<char>)>::empty());
        }
        while i < pairs.len()
            invariant
                i <= pairs.len(),
                s == pairs_view(pairs@),
                m@ == map_of(s.take(i as int)),
            decreases pairs.len() - i,
        {
            let k = pairs[i].0.clone();
            let v = pairs[i].1.clone();
            proof {
                assert(s.take(i + 1).drop_last() =~= s.take(i as int));
                assert(s.take(i + 1).last() == (k@, v@));
            }
            m.insert(k, v);
            i = i + 1;
        }
        proof {
            assert(s.take(pairs@.len() as int) =~= s);
        }
        m
    }

    /// A copy of the map.
    pub fn copy(&self) -> (r: StrMap)
        ensures
            r@ == self@,
    {
        let mut r = StrMap::new();
        r.extend(self);
        assert(Map::<Seq<char>, Seq<char>>::empty().union_prefer_right(self@) =~= self@);
        r
    }
}

} // verus!
