//! A table of values under distinct text keys, kept in the order in which the
//! keys came.

use crate::text::same;
use vstd::prelude::*;

verus! {

/// Values under distinct text keys.
pub struct Table<V> {
    entries: Vec<(String, V)>,
}

/// No key stands in two rows.
pub open spec fn distinct_keys<A>(rows: Seq<(Seq<char>, A)>) -> bool {
    forall|i: int, j: int|
        0 <= i < j < rows.len() ==> (#[trigger] rows[i]).0 != (#[trigger] rows[j]).0
}

/// Some row has the key `k`.
pub open spec fn has_key<A>(rows: Seq<(Seq<char>, A)>, k: Seq<char>) -> bool {
    exists|i: int| 0 <= i < rows.len() && (#[trigger] rows[i]).0 == k
}

/// A row with the key `k`.
pub open spec fn row_of<A>(rows: Seq<(Seq<char>, A)>, k: Seq<char>) -> int {
    choose|i: int| 0 <= i < rows.len() && (#[trigger] rows[i]).0 == k
}

/// The rows as a map from keys to values.
pub open spec fn rows_map<A>(rows: Seq<(Seq<char>, A)>) -> Map<Seq<char>, A> {
    Map::new(|k: Seq<char>| has_key(rows, k), |k: Seq<char>| rows[row_of(rows, k)].1)
}

/// The part of a map whose values satisfy `p`.
pub open spec fn kept<A>(m: Map<Seq<char>, A>, p: spec_fn(A) -> bool) -> Map<Seq<char>, A> {
    Map::new(|k: Seq<char>| m.contains_key(k) && p(m[k]), |k: Seq<char>| m[k])
}

/// The rows with the value `v` under the key `k`: a key that is there keeps its
/// place, and a new one comes last.
pub open spec fn rows_with<A>(rows: Seq<(Seq<char>, A)>, k: Seq<char>, v: A) -> Seq<(Seq<char>, A)> {
    if has_key(rows, k) {
        rows.update(row_of(rows, k), (k, v))
    } else {
        rows.push((k, v))
    }
}

/// The rows without the key `k`.
pub open spec fn rows_without<A>(rows: Seq<(Seq<char>, A)>, k: Seq<char>) -> Seq<(Seq<char>, A)> {
    if has_key(rows, k) {
        rows.remove(row_of(rows, k))
    } else {
        rows
    }
}

/// A key stands in one row only.
proof fn lemma_row_of<A>(rows: Seq<(Seq<char>, A)>, i: int)
    requires
        distinct_keys(rows),
        0 <= i < rows.len(),
    ensures
        has_key(rows, rows[i].0),
        row_of(rows, rows[i].0) == i,
{
    let j = row_of(rows, rows[i].0);
    assert(rows[i].0 == rows[i].0);
    assert(0 <= j < rows.len() && rows[j].0 == rows[i].0);
}

/// Each row is in the map.
pub proof fn lemma_row<A>(rows: Seq<(Seq<char>, A)>, i: int)
    requires
        distinct_keys(rows),
        0 <= i < rows.len(),
    ensures
        rows_map(rows).contains_key(rows[i].0),
        rows_map(rows)[rows[i].0] == rows[i].1,
{
    assert(has_key(rows, rows[i].0));
    let j = row_of(rows, rows[i].0);
    assert(0 <= j < rows.len() && rows[j].0 == rows[i].0);
}

proof fn lemma_push<A>(rows: Seq<(Seq<char>, A)>, k: Seq<char>, v: A)
    requires
        distinct_keys(rows),
        !has_key(rows, k),
    ensures
        distinct_keys(rows.push((k, v))),
        rows_map(rows.push((k, v))) == rows_map(rows).insert(k, v),
{
    let more = rows.push((k, v));
    assert forall|i: int, j: int| 0 <= i < j < more.len() implies (#[trigger] more[i]).0 != (
    #[trigger] more[j]).0 by {
        assert(more[i] == rows[i]);
    }
    assert forall|x: Seq<char>| has_key(more, x) <==> (has_key(rows, x) || x == k) by {
        if has_key(rows, x) {
            let i = row_of(rows, x);
            assert(more[i].0 == x);
        }
        assert(more[rows.len() as int].0 == k);
    }
    assert forall|x: Seq<char>| has_key(more, x) implies rows_map(more)[x] == rows_map(
        rows,
    ).insert(k, v)[x] by {
        if x == k {
            lemma_row(more, rows.len() as int);
        } else {
            let i = row_of(rows, x);
            assert(more[i] == rows[i]);
            lemma_row(more, i);
            lemma_row(rows, i);
        }
    }
    assert(rows_map(more) =~= rows_map(rows).insert(k, v));
}

proof fn lemma_update<A>(rows: Seq<(Seq<char>, A)>, at: int, v: A)
    requires
        distinct_keys(rows),
        0 <= at < rows.len(),
    ensures
        distinct_keys(rows.update(at, (rows[at].0, v))),
        rows_map(rows.update(at, (rows[at].0, v))) == rows_map(rows).insert(rows[at].0, v),
{
    let k = rows[at].0;
    let more = rows.update(at, (k, v));
    assert forall|i: int| 0 <= i < more.len() implies (#[trigger] more[i]).0 == rows[i].0 by {}
    assert(distinct_keys(more));
    assert forall|x: Seq<char>| has_key(more, x) <==> has_key(rows, x) by {
        if has_key(rows, x) {
            let i = row_of(rows, x);
            assert(more[i].0 == x);
        }
    }
    assert(has_key(rows, k));
    assert forall|x: Seq<char>| has_key(more, x) implies rows_map(more)[x] == rows_map(
        rows,
    ).insert(k, v)[x] by {
        let i = row_of(rows, x);
        assert(0 <= i < rows.len() && rows[i].0 == x);
        lemma_row(more, i);
        lemma_row(rows, i);
    }
    assert(rows_map(more) =~= rows_map(rows).insert(k, v));
}

proof fn lemma_remove<A>(rows: Seq<(Seq<char>, A)>, at: int)
    requires
        distinct_keys(rows),
        0 <= at < rows.len(),
    ensures
        distinct_keys(rows.remove(at)),
        rows_map(rows.remove(at)) == rows_map(rows).remove(rows[at].0),
{
    let k = rows[at].0;
    let less = rows.remove(at);
    assert forall|i: int| 0 <= i < less.len() implies #[trigger] less[i] == rows[if i < at {
        i
    } else {
        i + 1
    }] by {}
    assert(distinct_keys(less));
    assert forall|x: Seq<char>| has_key(less, x) <==> (has_key(rows, x) && x != k) by {
        if has_key(rows, x) && x != k {
            let i = row_of(rows, x);
            assert(0 <= i < rows.len() && rows[i].0 == x);
            let j = if i < at {
                i
            } else {
                i - 1
            };
            assert(less[j].0 == x);
        }
        if has_key(less, x) {
            let j = row_of(less, x);
            assert(0 <= j < less.len() && less[j].0 == x);
        }
    }
    assert forall|x: Seq<char>| has_key(less, x) implies rows_map(less)[x] == rows_map(rows)[x] by {
        let j = row_of(less, x);
        assert(0 <= j < less.len() && less[j].0 == x);
        lemma_row(less, j);
        lemma_row(rows, if j < at {
            j
        } else {
            j + 1
        });
    }
    assert(rows_map(less) =~= rows_map(rows).remove(k));
}

/// The rows whose values satisfy `p` are the kept part of the map.
pub proof fn lemma_filter<A>(rows: Seq<(Seq<char>, A)>, p: spec_fn(A) -> bool)
    requires
        distinct_keys(rows),
    ensures
        distinct_keys(rows.filter(|r: (Seq<char>, A)| p(r.1))),
        rows_map(rows.filter(|r: (Seq<char>, A)| p(r.1))) == kept(rows_map(rows), p),
    decreases rows.len(),
{
    let f = |r: (Seq<char>, A)| p(r.1);
    reveal(Seq::filter);
    if rows.len() == 0 {
        assert(rows_map(rows.filter(f)) =~= kept(rows_map(rows), p));
    } else {
        let head = rows.drop_last();
        let last = rows.last();
        lemma_filter(head, p);
        assert(!has_key(head, last.0)) by {
            if has_key(head, last.0) {
                let i = row_of(head, last.0);
                assert(rows[i].0 == rows[rows.len() - 1].0);
            }
        }
        assert(head.push(last) =~= rows);
        lemma_push(head, last.0, last.1);
        assert(rows_map(rows) == rows_map(head).insert(last.0, last.1));
        assert(!rows_map(head).contains_key(last.0));
        if p(last.1) {
            assert(!rows_map(head.filter(f)).contains_key(last.0));
            lemma_push(head.filter(f), last.0, last.1);
            assert(rows.filter(f) == head.filter(f).push((last.0, last.1)));
        }
        assert(rows_map(rows.filter(f)) =~= kept(rows_map(rows), p));
    }
}

/// A test that all pass filters nothing out.
pub proof fn lemma_filter_all<A>(s: Seq<A>, p: spec_fn(A) -> bool)
    requires
        forall|i: int| 0 <= i < s.len() ==> p(#[trigger] s[i]),
    ensures
        s.filter(p) == s,
    decreases s.len(),
{
    reveal(Seq::filter);
    if s.len() > 0 {
        let head = s.drop_last();
        assert forall|i: int| 0 <= i < head.len() implies p(#[trigger] head[i]) by {
            assert(head[i] == s[i]);
        }
        lemma_filter_all(head, p);
        assert(head.push(s.last()) =~= s);
    }
}

/// The map has as many keys as there are rows.
pub proof fn lemma_size<A>(rows: Seq<(Seq<char>, A)>)
    requires
        distinct_keys(rows),
    ensures
        rows_map(rows).dom().finite(),
        rows_map(rows).dom().len() == rows.len(),
    decreases rows.len(),
{
    if rows.len() == 0 {
        assert(rows_map(rows).dom() =~= Set::<Seq<char>>::empty());
    } else {
        let head = rows.drop_last();
        let last = rows.last();
        lemma_size(head);
        assert(!has_key(head, last.0)) by {
            if has_key(head, last.0) {
                let i = row_of(head, last.0);
                assert(rows[i].0 == rows[rows.len() - 1].0);
            }
        }
        assert(head.push(last) =~= rows);
        lemma_push(head, last.0, last.1);
        assert(rows_map(rows).dom() =~= rows_map(head).dom().insert(last.0));
    }
}

impl<V: View> View for Table<V> {
    type V = Map<Seq<char>, V::V>;

    open spec fn view(&self) -> Map<Seq<char>, V::V> {
        rows_map(self.rows())
    }
}

impl<V: View> Table<V> {
    /// The keys and values in the order in which the keys came.
    pub closed spec fn rows(&self) -> Seq<(Seq<char>, V::V)> {
        self.entries@.map_values(|e: (String, V)| (e.0@, e.1@))
    }

    /// The keys are distinct.
    pub open spec fn wf(&self) -> bool {
        distinct_keys(self.rows())
    }

    /// An empty table.
    pub fn new() -> (r: Self)
        ensures
            r.wf(),
            r.rows() == Seq::<(Seq<char>, V::V)>::empty(),
            r@ == Map::<Seq<char>, V::V>::empty(),
    {
        let r = Table { entries: Vec::new() };
        assert(r.rows() =~= Seq::<(Seq<char>, V::V)>::empty());
        assert(r@ =~= Map::<Seq<char>, V::V>::empty());
        r
    }

    /// How many keys there are.
    pub fn len(&self) -> (r: usize)
        ensures
            r == self.rows().len(),
            self.wf() ==> r == self@.dom().len(),
    {
        proof {
            if self.wf() {
                lemma_size(self.rows());
            }
        }
        self.entries.len()
    }

    fn find(&self, key: &str) -> (r: Option<usize>)
        ensures
            match r {
                Some(i) => i < self.entries@.len() && self.rows()[i as int].0 == key@ && has_key(
                    self.rows(),
                    key@,
                ),
                None => !has_key(self.rows(), key@),
            },
    {
        let mut i: usize = 0;
        while i < self.entries.len()
            invariant
                i <= self.entries@.len(),
                forall|j: int| 0 <= j < i ==> (#[trigger] self.rows()[j]).0 != key@,
            decreases self.entries@.len() - i,
        {
            assert(self.rows()[i as int].0 == self.entries@[i as int].0@);
            if same(self.entries[i].0.as_str(), key) {
                return Some(i);
            }
            i += 1;
        }
        None
    }

    /// Whether the key is there.
    pub fn contains_key(&self, key: &str) -> (r: bool)
        ensures
            r == self@.contains_key(key@),
    {
        self.find(key).is_some()
    }

    /// The value under the key.
    pub fn get(&self, key: &str) -> (r: Option<&V>)
        requires
            self.wf(),
        ensures
            match r {
                Some(v) => self@.contains_key(key@) && v@ == self@[key@],
                None => !self@.contains_key(key@),
            },
    {
        match self.find(key) {
            Some(i) => {
                proof {
                    lemma_row(self.rows(), i as int);
                }
                Some(&self.entries[i].1)
            },
            None => None,
        }
    }

    /// The value under the key, to be changed in place.
    pub fn get_mut(&mut self, key: &str) -> (r: Option<&mut V>)
        requires
            old(self).wf(),
        ensures
            final(self).wf(),
            match r {
                Some(v) => {
                    &&& old(self)@.contains_key(key@)
                    &&& (*v)@ == old(self)@[key@]
                    &&& final(self)@ == old(self)@.insert(key@, (*final(v))@)
                    &&& final(self).rows() == rows_with(old(self).rows(), key@, (*final(v))@)
                },
                None => !old(self)@.contains_key(key@) && *final(self) == *old(self),
            },
    {
        match self.find(key) {
            Some(i) => {
                let ghost rows = self.rows();
                let v = &mut self.entries[i].1;
                assert(after_borrow(self).rows() =~= rows.update(i as int, (key@, (*final(v))@)));
                proof {
                    lemma_row(rows, i as int);
                    lemma_row_of(rows, i as int);
                    lemma_update(rows, i as int, (*final(v))@);
                }
                Some(v)
            },
            None => None,
        }
    }

    /// Puts the value under the key, in place of any that was there.
    pub fn insert(&mut self, key: String, value: V)
        requires
            old(self).wf(),
        ensures
            final(self).wf(),
            final(self)@ == old(self)@.insert(key@, value@),
            final(self).rows() == rows_with(old(self).rows(), key@, value@),
    {
        match self.find(key.as_str()) {
            Some(i) => {
                proof {
                    lemma_row_of(self.rows(), i as int);
                    lemma_update(self.rows(), i as int, value@);
                }
                self.entries[i] = (key, value);
                assert(self.rows() =~= old(self).rows().update(i as int, (key@, value@)));
            },
            None => {
                proof {
                    lemma_push(self.rows(), key@, value@);
                }
                self.entries.push((key, value));
                assert(self.rows() =~= old(self).rows().push((key@, value@)));
            },
        }
    }

    /// Takes the key out, and says whether it was there.
    pub fn remove(&mut self, key: &str) -> (r: bool)
        requires
            old(self).wf(),
        ensures
            final(self).wf(),
            final(self)@ == old(self)@.remove(key@),
            final(self).rows() == rows_without(old(self).rows(), key@),
            r == old(self)@.contains_key(key@),
    {
        match self.find(key) {
            Some(i) => {
                proof {
                    lemma_row_of(self.rows(), i as int);
                    lemma_remove(self.rows(), i as int);
                }
                self.entries.remove(i);
                assert(self.rows() =~= old(self).rows().remove(i as int));
                true
            },
            None => {
                assert(self@.remove(key@) =~= self@);
                false
            },
        }
    }

    /// Keeps the rows whose values pass the test.
    pub(crate) fn retain<F: Fn(&V) -> bool>(&mut self, test: F, Ghost(p): Ghost<spec_fn(V::V) -> bool>)
        requires
            old(self).wf(),
            forall|v: V| #[trigger] old(self)@.contains_value(v@) ==> test.requires((&v,)),
            forall|v: V, b: bool| #[trigger] test.ensures((&v,), b) ==> b == p(v@),
        ensures
            final(self).wf(),
            final(self)@ == kept(old(self)@, p),
            final(self).rows() == old(self).rows().filter(|r: (Seq<char>, V::V)| p(r.1)),
    {
        let ghost f = |r: (Seq<char>, V::V)| p(r.1);
        let ghost rows = self.rows();
        let n: usize = self.entries.len();
        let mut seen: usize = 0;
        let mut i: usize = 0;
        assert(rows.take(0).filter(f) =~= Seq::<(Seq<char>, V::V)>::empty()) by {
            rows.take(0).lemma_filter_len(f);
        }
        assert(rows.take(0).filter(f) + rows.skip(0) =~= self.rows());
        assert forall|v: V, k: int|
            0 <= k < rows.len() && v@ == (#[trigger] rows[k]).1 implies #[trigger] test.requires(
            (&v,),
        ) by {
            lemma_row(rows, k);
            assert(old(self)@.dom().contains(rows[k].0));
            assert(old(self)@.contains_value(v@));
        }
        while seen < n
            invariant
                seen <= n == rows.len(),
                i == rows.take(seen as int).filter(f).len(),
                self.rows() == rows.take(seen as int).filter(f) + rows.skip(seen as int),
                f == (|r: (Seq<char>, V::V)| p(r.1)),
                forall|v: V, k: int|
                    0 <= k < rows.len() && v@ == (#[trigger] rows[k]).1 ==> #[trigger] test.requires((&v,)),
                forall|v: V, b: bool| #[trigger] test.ensures((&v,), b) ==> b == p(v@),
            decreases n - seen,
        {
            let ghost here = rows[seen as int];
            assert(self.rows().len() == self.entries@.len());
            assert(self.rows()[i as int] == here);
            assert(rows.take(seen + 1) =~= rows.take(seen as int).push(here));
            proof {
                rows.take(seen as int).lemma_filter_push(here, f);
            }
            let ghost before = self.rows();
            assert(self.entries@[i as int].1@ == here.1);
            if test(&self.entries[i].1) {
                i += 1;
                assert(self.rows() =~= rows.take(seen + 1).filter(f) + rows.skip(seen + 1));
            } else {
                self.entries.remove(i);
                assert(self.rows() =~= before.remove(i as int));
                assert(self.rows() =~= rows.take(seen + 1).filter(f) + rows.skip(seen + 1));
            }
            seen += 1;
        }
        assert(rows.take(n as int) =~= rows);
        assert(rows.filter(f) + rows.skip(n as int) =~= rows.filter(f));
        proof {
            lemma_filter(rows, p);
        }
    }

    /// The key of a row.
    pub fn key_at(&self, i: usize) -> (r: &String)
        requires
            i < self.rows().len(),
        ensures
            r@ == self.rows()[i as int].0,
    {
        &self.entries[i].0
    }

    /// The value of a row.
    pub fn value_at(&self, i: usize) -> (r: &V)
        requires
            i < self.rows().len(),
        ensures
            r@ == self.rows()[i as int].1,
    {
        &self.entries[i].1
    }
}

} // verus!
