//! The key-value table the records are kept in: rows addressed by a
//! (partition, sort) key pair, holding raw attribute maps. This is the
//! store interface the client delegates durability to: put, get, query by
//! partition, update of single fields with the new image returned, and
//! delete with the previous image returned.

use vstd::prelude::*;

use crate::attr::{AttrMap, AttrVal, AttrValV};
use crate::uid::Uid;

verus! {

/// One stored row.
#[derive(Debug)]
struct Row {
    pk: Uid,
    sk: Uid,
    attrs: AttrMap,
}

/// The key a row sits under.
spec fn row_key(r: Row) -> (Seq<char>, Seq<char>) {
    (r.pk@, r.sk@)
}

/// The map a sequence of rows denotes; a later row for the same key
/// supersedes an earlier one (the operations never let that arise).
spec fn rows_map(s: Seq<Row>) -> Map<(Seq<char>, Seq<char>), Map<Seq<char>, AttrValV>>
    decreases s.len(),
{
    if s.len() == 0 {
        Map::empty()
    } else {
        rows_map(s.drop_last()).insert(row_key(s.last()), s.last().attrs@)
    }
}

/// No two rows under the same key.
spec fn unique_keys(s: Seq<Row>) -> bool {
    forall|i: int, j: int|
        0 <= i < j < s.len() ==> #[trigger] row_key(s[i]) != #[trigger] row_key(s[j])
}

/// A key bound in the suffix from `i` on is bound to the same value by the
/// whole row list as by the prefix before `i`, provided the suffix misses it.
proof fn lemma_rows_absent_suffix(s: Seq<Row>, i: int, k: (Seq<char>, Seq<char>))
    requires
        0 <= i <= s.len(),
        forall|j: int| i <= j < s.len() ==> #[trigger] row_key(s[j]) != k,
    ensures
        rows_map(s).contains_key(k) == rows_map(s.take(i)).contains_key(k),
        rows_map(s).contains_key(k) ==> rows_map(s)[k] == rows_map(s.take(i))[k],
    decreases s.len() - i,
{
    if i == s.len() {
        assert(s.take(i) =~= s);
    } else {
        lemma_rows_absent_suffix(s, i + 1, k);
        assert(s.take(i + 1).drop_last() =~= s.take(i));
        assert(s.take(i + 1).last() == s[i]);
    }
}

/// A key is bound exactly when some row sits under it.
proof fn lemma_rows_contains(s: Seq<Row>, k: (Seq<char>, Seq<char>))
    ensures
        rows_map(s).contains_key(k) <==> exists|j: int| 0 <= j < s.len() && #[trigger] row_key(
            s[j],
        ) == k,
    decreases s.len(),
{
    if s.len() > 0 {
        lemma_rows_contains(s.drop_last(), k);
        if row_key(s.last()) == k {
            assert(row_key(s[s.len() - 1]) == k);
        } else {
            assert(forall|j: int|
                0 <= j < s.len() - 1 ==> #[trigger] row_key(s.drop_last()[j]) == row_key(s[j]));
            if exists|j: int| 0 <= j < s.len() && #[trigger] row_key(s[j]) == k {
                let j = choose|j: int| 0 <= j < s.len() && #[trigger] row_key(s[j]) == k;
                assert(row_key(s.drop_last()[j]) == k);
            }
        }
    }
}

/// Under unique keys, the row at index `i` gives its key's binding.
proof fn lemma_rows_value(s: Seq<Row>, i: int)
    requires
        unique_keys(s),
        0 <= i < s.len(),
    ensures
        rows_map(s).contains_key(row_key(s[i])),
        rows_map(s)[row_key(s[i])] == s[i].attrs@,
{
    lemma_rows_absent_suffix(s, i + 1, row_key(s[i]));
    assert(s.take(i + 1).drop_last() =~= s.take(i));
    assert(s.take(i + 1).last() == s[i]);
}

/// Removing the row at index `i` removes exactly its key's binding.
proof fn lemma_rows_remove(s: Seq<Row>, i: int)
    requires
        unique_keys(s),
        0 <= i < s.len(),
    ensures
        rows_map(s.remove(i)) == rows_map(s).remove(row_key(s[i])),
    decreases s.len(),
{
    let k = row_key(s[i]);
    if i == s.len() - 1 {
        assert(s.remove(i) =~= s.drop_last());
        lemma_rows_contains(s.drop_last(), k);
        assert(forall|j: int|
            0 <= j < s.len() - 1 ==> #[trigger] row_key(s.drop_last()[j]) == row_key(s[j]));
        assert(!rows_map(s.drop_last()).contains_key(k));
        assert(rows_map(s.drop_last()) =~= rows_map(s).remove(k));
    } else {
        assert(forall|j: int|
            0 <= j < s.len() - 1 ==> #[trigger] row_key(s.drop_last()[j]) == row_key(s[j]));
        lemma_rows_remove(s.drop_last(), i);
        assert(s.remove(i).drop_last() =~= s.drop_last().remove(i));
        assert(s.remove(i).last() == s.last());
        assert(rows_map(s.remove(i)) == rows_map(s.drop_last().remove(i)).insert(
            row_key(s.last()),
            s.last().attrs@,
        ));
        assert(row_key(s.last()) != k);
        assert(rows_map(s.drop_last()).remove(k).insert(row_key(s.last()), s.last().attrs@)
            =~= rows_map(s).remove(k));
    }
}

/// The field assignments an update carries, as name-value pairs in
/// specification terms.
pub open spec fn assigns_view(s: Seq<(String, AttrVal)>) -> Seq<(Seq<char>, AttrValV)> {
    s.map_values(|p: (String, AttrVal)| (p.0@, p.1@))
}

/// The attribute map an update leaves under the key, applied to what was
/// there: assignments in order, a later one for the same name superseding.
pub open spec fn apply_assigns(
    m: Map<Seq<char>, AttrValV>,
    s: Seq<(Seq<char>, AttrValV)>,
) -> Map<Seq<char>, AttrValV>
    decreases s.len(),
{
    if s.len() == 0 {
        m
    } else {
        apply_assigns(m, s.drop_last()).insert(s.last().0, s.last().1)
    }
}

/// Assignments apply one after the other: a concatenated list acts as the
/// first part, then the second.
pub proof fn lemma_apply_assigns_concat(
    m: Map<Seq<char>, AttrValV>,
    a: Seq<(Seq<char>, AttrValV)>,
    b: Seq<(Seq<char>, AttrValV)>,
)
    ensures
        apply_assigns(m, a + b) == apply_assigns(apply_assigns(m, a), b),
    decreases b.len(),
{
    if b.len() == 0 {
        assert(a + b =~= a);
    } else {
        lemma_apply_assigns_concat(m, a, b.drop_last());
        assert((a + b).drop_last() =~= a + b.drop_last());
        assert((a + b).last() == b.last());
    }
}

/// What an update starts from: the stored row, or — when the key is absent —
/// a fresh row holding just its own key attributes, as the backing store
/// creates one on update.
pub open spec fn update_base(
    t: Map<(Seq<char>, Seq<char>), Map<Seq<char>, AttrValV>>,
    pk: Seq<char>,
    sk: Seq<char>,
) -> Map<Seq<char>, AttrValV> {
    if t.contains_key((pk, sk)) {
        t[(pk, sk)]
    } else {
        Map::empty().insert("identity_pool_user_id"@, AttrValV::S(pk)).insert(
            "uuid"@,
            AttrValV::S(sk),
        )
    }
}

/// The full image an update leaves under the key.
pub open spec fn spec_updated(
    t: Map<(Seq<char>, Seq<char>), Map<Seq<char>, AttrValV>>,
    pk: Seq<char>,
    sk: Seq<char>,
    assigns: Seq<(Seq<char>, AttrValV)>,
) -> Map<Seq<char>, AttrValV> {
    apply_assigns(update_base(t, pk, sk), assigns)
}

/// The table: every record of every owner, addressed by the (owner, record)
/// key pair.
#[derive(Debug)]
pub struct Table {
    rows: Vec<Row>,
}

impl View for Table {
    type V = Map<(Seq<char>, Seq<char>), Map<Seq<char>, AttrValV>>;

    closed spec fn view(&self) -> Map<(Seq<char>, Seq<char>), Map<Seq<char>, AttrValV>> {
        rows_map(self.rows@)
    }
}

impl Table {
    /// One row per key: established at creation, preserved by every
    /// operation.
    pub closed spec fn wf(&self) -> bool {
        unique_keys(self.rows@)
    }

    /// An empty table.
    pub fn new() -> (r: Table)
        ensures
            r@ == Map::<(Seq<char>, Seq<char>), Map<Seq<char>, AttrValV>>::empty(),
            r.wf(),
    {
        Table { rows: Vec::new() }
    }

    /// The row under the key, if any.
    pub fn get(&self, pk: &Uid, sk: &Uid) -> (r: Option<&AttrMap>)
        requires
            self.wf(),
        ensures
            r matches Some(a) ==> self@.contains_key((pk@, sk@)) && a@ == self@[(pk@, sk@)],
            r is None ==> !self@.contains_key((pk@, sk@)),
    {
        match self.find_row(pk, sk) {
            Some(i) => {
                proof {
                    lemma_rows_value(self.rows@, i as int);
                }
                Some(&self.rows[i].attrs)
            },
            None => None,
        }
    }

    /// The index of the row under the key, if any.
    fn find_row(&self, pk: &Uid, sk: &Uid) -> (r: Option<usize>)
        ensures
            r matches Some(i) ==> (i as int) < self.rows@.len() && row_key(self.rows@[i as int])
                == (pk@, sk@),
            r is None ==> !self@.contains_key((pk@, sk@)),
    {
        let n = self.rows.len();
        let mut i: usize = 0;
        while i < n
            invariant
                i <= n,
                n == self.rows.len(),
                forall|j: int| 0 <= j < i ==> #[trigger] row_key(self.rows@[j]) != (pk@, sk@),
            decreases n - i,
        {
            if self.rows[i].pk.same(pk) && self.rows[i].sk.same(sk) {
                return Some(i);
            }
            i = i + 1;
        }
        proof {
            lemma_rows_contains(self.rows@, (pk@, sk@));
        }
        None
    }

    /// Takes the row under the key out, handing its attributes back.
    fn remove_row(&mut self, pk: &Uid, sk: &Uid) -> (r: Option<AttrMap>)
        requires
            old(self).wf(),
        ensures
            final(self).wf(),
            final(self)@ == old(self)@.remove((pk@, sk@)),
            r matches Some(a) ==> old(self)@.contains_key((pk@, sk@)) && a@ == old(
                self,
            )@[(pk@, sk@)],
            r is None ==> !old(self)@.contains_key((pk@, sk@)) && final(self)@ == old(self)@,
    {
        let ghost k = (pk@, sk@);
        match self.find_row(pk, sk) {
            Some(i) => {
                proof {
                    lemma_rows_value(self.rows@, i as int);
                    lemma_rows_remove(self.rows@, i as int);
                }
                let row = self.rows.remove(i);
                proof {
                    assert(forall|x: int, y: int|
                        0 <= x < y < self.rows@.len() ==> #[trigger] row_key(self.rows@[x])
                            != #[trigger] row_key(self.rows@[y])) by {
                        assert(forall|x: int|
                            0 <= x < self.rows@.len() ==> #[trigger] row_key(self.rows@[x])
                                == row_key(old(self).rows@[if x < i as int {
                                x
                            } else {
                                x + 1
                            }]));
                    }
                }
                Some(row.attrs)
            },
            None => {
                proof {
                    assert(old(self)@.remove(k) =~= old(self)@);
                }
                None
            },
        }
    }

    /// Stores the row under the key, replacing any previous one.
    pub fn put(&mut self, pk: Uid, sk: Uid, attrs: AttrMap)
        requires
            old(self).wf(),
        ensures
            final(self).wf(),
            final(self)@ == old(self)@.insert((pk@, sk@), attrs@),
    {
        let ghost k = (pk@, sk@);
        let _previous = self.remove_row(&pk, &sk);
        let ghost mid = self@;
        let ghost mid_rows = self.rows@;
        let ghost a = attrs@;
        self.rows.push(Row { pk, sk, attrs });
        proof {
            assert(self.rows@.drop_last() =~= mid_rows);
            assert(self@ == mid.insert(k, a));
            assert(mid.insert(k, a) =~= old(self)@.insert(k, a));
            lemma_rows_contains(mid_rows, k);
            assert(forall|x: int, y: int|
                0 <= x < y < self.rows@.len() ==> #[trigger] row_key(self.rows@[x])
                    != #[trigger] row_key(self.rows@[y])) by {
                assert(forall|x: int|
                    0 <= x < mid_rows.len() ==> #[trigger] row_key(self.rows@[x]) == row_key(
                        mid_rows[x],
                    ));
                assert(row_key(self.rows@[self.rows@.len() - 1]) == k);
            }
        }
    }

    /// Applies the field assignments to the row under the key — creating
    /// the row from its key attributes when absent, as the backing store
    /// does — and hands back the full new image.
    pub fn update(&mut self, pk: &Uid, sk: &Uid, assigns: &Vec<(String, AttrVal)>) -> (r: AttrMap)
        requires
            old(self).wf(),
        ensures
            final(self).wf(),
            r@ == spec_updated(old(self)@, pk@, sk@, assigns_view(assigns@)),
            final(self)@ == old(self)@.insert((pk@, sk@), r@),
    {
        let ghost t0 = self@;
        let previous = self.remove_row(pk, sk);
        let mut attrs: AttrMap;
        match previous {
            Some(a) => {
                attrs = a;
            },
            None => {
                attrs = AttrMap::new();
                attrs.insert(
                    "identity_pool_user_id".to_owned(),
                    AttrVal::S(pk.as_string().clone()),
                );
                attrs.insert("uuid".to_owned(), AttrVal::S(sk.as_string().clone()));
            },
        }
        assert(attrs@ == update_base(t0, pk@, sk@));
        let ghost rows1 = self.rows@;
        let n = assigns.len();
        let mut i: usize = 0;
        while i < n
            invariant
                i <= n,
                n == assigns@.len(),
                self.rows@ == rows1,
                attrs@ == apply_assigns(
                    update_base(t0, pk@, sk@),
                    assigns_view(assigns@).take(i as int),
                ),
            decreases n - i,
        {
            attrs.insert(assigns[i].0.clone(), assigns[i].1.duplicate());
            proof {
                let av = assigns_view(assigns@);
                assert(av[i as int] == (assigns@[i as int].0@, assigns@[i as int].1@));
                assert(av.take(i as int + 1).drop_last() =~= av.take(i as int));
                assert(av.take(i as int + 1).last() == av[i as int]);
            }
            i = i + 1;
        }
        proof {
            assert(assigns_view(assigns@).take(n as int) =~= assigns_view(assigns@));
        }
        let image = attrs.duplicate();
        let ghost mid = self@;
        let ghost mid_rows = self.rows@;
        let ghost a = attrs@;
        self.rows.push(Row { pk: pk.duplicate(), sk: sk.duplicate(), attrs });
        proof {
            assert(self.rows@.drop_last() =~= mid_rows);
            assert(self@ == mid.insert((pk@, sk@), a));
            assert(mid.insert((pk@, sk@), a) =~= t0.insert((pk@, sk@), a));
            lemma_rows_contains(mid_rows, (pk@, sk@));
            assert(forall|x: int, y: int|
                0 <= x < y < self.rows@.len() ==> #[trigger] row_key(self.rows@[x])
                    != #[trigger] row_key(self.rows@[y])) by {
                assert(forall|x: int|
                    0 <= x < mid_rows.len() ==> #[trigger] row_key(self.rows@[x]) == row_key(
                        mid_rows[x],
                    ));
                assert(row_key(self.rows@[self.rows@.len() - 1]) == (pk@, sk@));
            }
        }
        image
    }

    /// Takes the row under the key out, handing back the previous image.
    pub fn delete(&mut self, pk: &Uid, sk: &Uid) -> (r: Option<AttrMap>)
        requires
            old(self).wf(),
        ensures
            final(self).wf(),
            final(self)@ == old(self)@.remove((pk@, sk@)),
            r matches Some(a) ==> old(self)@.contains_key((pk@, sk@)) && a@ == old(
                self,
            )@[(pk@, sk@)],
            r is None ==> !old(self)@.contains_key((pk@, sk@)) && final(self)@ == old(self)@,
    {
        self.remove_row(pk, sk)
    }

    /// Every row of the given partition, in no promised order; beside the
    /// rows, the ghost list of the keys they sit under, index for index.
    pub fn query(&self, pk: &Uid) -> (r: (Vec<AttrMap>, Ghost<Seq<(Seq<char>, Seq<char>)>>))
        requires
            self.wf(),
        ensures
            r.1@.len() == r.0@.len(),
            forall|j: int| #![trigger r.1@[j]]
                0 <= j < r.1@.len() ==> r.1@[j].0 == pk@ && self@.contains_key(r.1@[j])
                    && r.0@[j]@ == self@[r.1@[j]],
            forall|k: (Seq<char>, Seq<char>)| #![trigger self@.contains_key(k)]
                self@.contains_key(k) && k.0 == pk@ ==> r.1@.contains(k),
    {
        let n = self.rows.len();
        let mut result: Vec<AttrMap> = Vec::new();
        let ghost mut src: Seq<int> = Seq::empty();
        let mut i: usize = 0;
        while i < n
            invariant
                i <= n,
                n == self.rows.len(),
                self.wf(),
                src.len() == result@.len(),
                forall|j: int|
                    0 <= j < src.len() ==> 0 <= #[trigger] src[j] < i && row_key(
                        self.rows@[src[j]],
                    ).0 == pk@ && result@[j]@ == self.rows@[src[j]].attrs@,
                forall|x: int|
                    0 <= x < i && #[trigger] row_key(self.rows@[x]).0 == pk@ ==> exists|j: int|
                        0 <= j < src.len() && #[trigger] src[j] == x,
            decreases n - i,
        {
            let ghost src0 = src;
            let ghost res0 = result@;
            if self.rows[i].pk.same(pk) {
                result.push(self.rows[i].attrs.duplicate());
                proof {
                    src = src.push(i as int);
                    assert(src[src.len() - 1] == i as int);
                    assert(result@[result@.len() - 1]@ == self.rows@[i as int].attrs@);
                    assert(forall|j: int|
                        0 <= j < src0.len() ==> #[trigger] src[j] == src0[j] && result@[j]
                            == res0[j]);
                    assert forall|x: int|
                        0 <= x < i + 1 && #[trigger] row_key(self.rows@[x]).0 == pk@ implies exists|
                        j: int,
                    | 0 <= j < src.len() && #[trigger] src[j] == x by {
                        if x == i as int {
                            assert(src[src.len() - 1] == x);
                        } else {
                            let j = choose|j: int| 0 <= j < src0.len() && #[trigger] src0[j] == x;
                            assert(src[j] == x);
                        }
                    }
                }
            } else {
                proof {
                    assert(row_key(self.rows@[i as int]).0 != pk@);
                }
            }
            i = i + 1;
        }
        let ghost keys = Seq::new(src.len() as nat, |j: int| row_key(self.rows@[src[j]]));
        proof {
            assert forall|j: int| #![trigger keys[j]] 0 <= j < keys.len() implies keys[j].0 == pk@
                && self@.contains_key(keys[j]) && result@[j]@ == self@[keys[j]] by {
                lemma_rows_value(self.rows@, src[j]);
            }
            assert forall|k: (Seq<char>, Seq<char>)| #[trigger]
                self@.contains_key(k) && k.0 == pk@ implies keys.contains(k) by {
                lemma_rows_contains(self.rows@, k);
                let x = choose|x: int|
                    0 <= x < self.rows@.len() && #[trigger] row_key(self.rows@[x]) == k;
                assert(row_key(self.rows@[x]).0 == pk@);
                let j = choose|j: int| 0 <= j < src.len() && #[trigger] src[j] == x;
                assert(keys[j] == k);
            }
        }
        (result, Ghost(keys))
    }
}

} // verus!
