//! The schemaless attribute representation a stored record lives in: a
//! string-keyed map of variant values.

use vstd::prelude::*;

verus! {

/// A stored attribute value. `S`, `Bool` and `Null` are the variants the
/// codec writes and reads back; `Other` stands for any value type outside
/// them (a row written by another tool), which the codec treats as a type
/// mismatch.
#[derive(Debug, PartialEq, Eq)]
pub enum AttrVal {
    S(String),
    Bool(bool),
    Null(bool),
    Other,
}

/// Mathematical value of a stored attribute.
pub enum AttrValV {
    S(Seq<char>),
    Bool(bool),
    Null(bool),
    Other,
}

impl View for AttrVal {
    type V = AttrValV;

    open spec fn view(&self) -> AttrValV {
        match self {
            AttrVal::S(s) => AttrValV::S(s@),
            AttrVal::Bool(b) => AttrValV::Bool(*b),
            AttrVal::Null(b) => AttrValV::Null(*b),
            AttrVal::Other => AttrValV::Other,
        }
    }
}

impl AttrVal {
    /// A copy that denotes the same value.
    pub fn duplicate(&self) -> (r: AttrVal)
        ensures
            r@ == self@,
    {
        match self {
            AttrVal::S(s) => AttrVal::S(s.clone()),
            AttrVal::Bool(b) => AttrVal::Bool(*b),
            AttrVal::Null(b) => AttrVal::Null(*b),
            AttrVal::Other => AttrVal::Other,
        }
    }
}

/// The map a sequence of key-value entries denotes; a later entry for the
/// same key supersedes an earlier one.
pub open spec fn map_of(s: Seq<(String, AttrVal)>) -> Map<Seq<char>, AttrValV>
    decreases s.len(),
{
    if s.len() == 0 {
        Map::empty()
    } else {
        map_of(s.drop_last()).insert(s.last().0@, s.last().1@)
    }
}

/// A record as the backing store keeps it: attribute names mapped to
/// attribute values, with no schema of its own.
#[derive(Debug, PartialEq, Eq)]
pub struct AttrMap {
    entries: Vec<(String, AttrVal)>,
}

impl View for AttrMap {
    type V = Map<Seq<char>, AttrValV>;

    closed spec fn view(&self) -> Map<Seq<char>, AttrValV> {
        map_of(self.entries@)
    }
}

/// A key bound in the suffix from `i` on is bound to the same value by the
/// whole list as by the prefix before `i`, provided the suffix misses it.
proof fn lemma_absent_suffix(s: Seq<(String, AttrVal)>, i: int, k: Seq<char>)
    requires
        0 <= i <= s.len(),
        forall|j: int| i <= j < s.len() ==> #[trigger] s[j].0@ != k,
    ensures
        map_of(s).contains_key(k) == map_of(s.take(i)).contains_key(k),
        map_of(s).contains_key(k) ==> map_of(s)[k] == map_of(s.take(i))[k],
    decreases s.len() - i,
{
    if i == s.len() {
        assert(s.take(i) =~= s);
    } else {
        lemma_absent_suffix(s, i + 1, k);
        assert(s.take(i + 1).drop_last() =~= s.take(i));
        assert(s.take(i + 1).last() == s[i]);
    }
}

/// Two entry lists whose entries denote the same keys and values denote the
/// same map.
proof fn lemma_map_of_congruent(a: Seq<(String, AttrVal)>, b: Seq<(String, AttrVal)>)
    requires
        a.len() == b.len(),
        forall|j: int| 0 <= j < a.len() ==> #[trigger] a[j].0@ == b[j].0@ && a[j].1@ == b[j].1@,
    ensures
        map_of(a) == map_of(b),
    decreases a.len(),
{
    if a.len() > 0 {
        lemma_map_of_congruent(a.drop_last(), b.drop_last());
        assert(a.last().0@ == b.last().0@ && a.last().1@ == b.last().1@);
        assert(map_of(a) =~= map_of(b));
    } else {
        assert(map_of(a) =~= map_of(b));
    }
}

impl AttrMap {
    /// A map with no attributes.
    pub fn new() -> (r: AttrMap)
        ensures
            r@ == Map::<Seq<char>, AttrValV>::empty(),
    {
        AttrMap { entries: Vec::new() }
    }

    /// Binds `key` to `value`, superseding any earlier binding.
    pub fn insert(&mut self, key: String, value: AttrVal)
        ensures
            final(self)@ == old(self)@.insert(key@, value@),
    {
        let ghost before = self.entries@;
        let ghost kv = (key@, value@);
        self.entries.push((key, value));
        proof {
            assert(self.entries@.drop_last() =~= before);
            assert(map_of(self.entries@) == map_of(before).insert(kv.0, kv.1));
        }
    }

    /// The value bound to `key`, if any.
    pub fn get(&self, key: &String) -> (r: Option<&AttrVal>)
        ensures
            r matches Some(v) ==> self@.contains_key(key@) && v@ == self@[key@],
            r is None ==> !self@.contains_key(key@),
    {
        let n = self.entries.len();
        let mut i = n;
        while i > 0
            invariant
                i <= n,
                n == self.entries.len(),
                forall|j: int| i <= j < n ==> #[trigger] self.entries@[j].0@ != key@,
            decreases i,
        {
            i = i - 1;
            if self.entries[i].0 == *key {
                proof {
                    lemma_absent_suffix(self.entries@, i + 1, key@);
                    assert(self.entries@.take(i as int + 1).drop_last() =~= self.entries@.take(
                        i as int,
                    ));
                    assert(self.entries@.take(i as int + 1).last() == self.entries@[i as int]);
                }
                return Some(&self.entries[i].1);
            }
        }
        proof {
            lemma_absent_suffix(self.entries@, 0, key@);
            assert(self.entries@.take(0).len() == 0);
        }
        None
    }

    /// The entries as plain pairs, for the boundary that hands rows to the
    /// backing store: read back in order, they denote this same map.
    pub fn to_pairs(&self) -> (r: Vec<(String, AttrVal)>)
        ensures
            map_of(r@) == self@,
    {
        let n = self.entries.len();
        let mut entries: Vec<(String, AttrVal)> = Vec::new();
        let mut i: usize = 0;
        while i < n
            invariant
                i <= n,
                n == self.entries.len(),
                entries@.len() == i,
                forall|j: int|
                    0 <= j < i ==> #[trigger] entries@[j].0@ == self.entries@[j].0@
                        && entries@[j].1@ == self.entries@[j].1@,
            decreases n - i,
        {
            let key = self.entries[i].0.clone();
            let value = self.entries[i].1.duplicate();
            entries.push((key, value));
            i = i + 1;
        }
        proof {
            lemma_map_of_congruent(entries@, self.entries@);
        }
        entries
    }

    /// A copy that denotes the same map.
    pub fn duplicate(&self) -> (r: AttrMap)
        ensures
            r@ == self@,
    {
        let n = self.entries.len();
        let mut entries: Vec<(String, AttrVal)> = Vec::new();
        let mut i: usize = 0;
        while i < n
            invariant
                i <= n,
                n == self.entries.len(),
                entries@.len() == i,
                forall|j: int|
                    0 <= j < i ==> #[trigger] entries@[j].0@ == self.entries@[j].0@
                        && entries@[j].1@ == self.entries@[j].1@,
            decreases n - i,
        {
            let key = self.entries[i].0.clone();
            let value = self.entries[i].1.duplicate();
            entries.push((key, value));
            i = i + 1;
        }
        let r = AttrMap { entries };
        proof {
            lemma_map_of_congruent(r.entries@, self.entries@);
        }
        r
    }
}

} // verus!
