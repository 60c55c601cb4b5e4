//! The model of one persisted, transactional key-value table: rows sorted by
//! key, read through a `Map` view. Every store of the library (queue,
//! integrated operations, content-addressed records, metadata indexes) is one
//! of these, keyed by a wide integer so that composite keys fit, holding
//! plain copyable values.

use vstd::prelude::*;

verus! {

/// Whether some row of `s` carries key `k`.
pub open spec fn kv_has<T>(s: Seq<(u128, T)>, k: u128) -> bool {
    exists|i: int| 0 <= i < s.len() && (#[trigger] s[i]).0 == k
}

/// The value the row carrying `k` holds (meaningful only under distinct keys).
pub open spec fn kv_at<T>(s: Seq<(u128, T)>, k: u128) -> T {
    s[choose|i: int| 0 <= i < s.len() && (#[trigger] s[i]).0 == k].1
}

/// The rows of `s` read as a map from key to value.
pub open spec fn kv_map<T>(s: Seq<(u128, T)>) -> Map<u128, T> {
    Map::new(|k: u128| kv_has(s, k), |k: u128| kv_at(s, k))
}

/// No two rows carry the same key.
pub open spec fn keys_distinct<T>(s: Seq<(u128, T)>) -> bool {
    forall|i: int, j: int| 0 <= i < j < s.len() ==> (#[trigger] s[i]).0 != (#[trigger] s[j]).0
}

/// Row keys strictly increase, as the persisted store iterates them.
pub open spec fn keys_sorted<T>(s: Seq<(u128, T)>) -> bool {
    forall|i: int, j: int| 0 <= i < j < s.len() ==> (#[trigger] s[i]).0 < (#[trigger] s[j]).0
}

pub broadcast proof fn lemma_sorted_distinct<T>(s: Seq<(u128, T)>)
    requires
        #[trigger] keys_sorted(s),
    ensures
        keys_distinct(s),
{
}

/// Under distinct keys, row `i` is exactly what the map view holds at its key.
pub proof fn lemma_kv_row<T>(s: Seq<(u128, T)>, i: int)
    requires
        keys_distinct(s),
        0 <= i < s.len(),
    ensures
        kv_map(s).contains_key(s[i].0),
        kv_map(s)[s[i].0] == s[i].1,
{
    let k = s[i].0;
    assert(kv_has(s, k));
    let j = choose|j: int| 0 <= j < s.len() && (#[trigger] s[j]).0 == k;
    if j < i {
        assert(s[j].0 != s[i].0);
    } else if i < j {
        assert(s[i].0 != s[j].0);
    }
}

/// One persisted table of the transactional store.
pub struct Table<V> {
    rows: Vec<(u128, V)>,
}

impl<V> Table<V> {
    /// The persisted rows, in iteration order.
    pub closed spec fn spec_rows(self) -> Seq<(u128, V)> {
        self.rows@
    }

    /// Rows are sorted by key, so keys are unique and scans are ordered.
    pub open spec fn wf(self) -> bool {
        keys_sorted(self.spec_rows())
    }

    /// An empty table.
    pub fn new() -> (t: Self)
        ensures
            t.wf(),
            t@ == Map::<u128, V>::empty(),
            t.spec_rows() == Seq::<(u128, V)>::empty(),
    {
        let t = Table { rows: Vec::new() };
        proof {
            assert(t@ =~= Map::<u128, V>::empty());
        }
        t
    }

    /// Read the row carrying `k`, if one is persisted.
    pub fn get(&self, k: u128) -> (r: Option<&V>)
        requires
            self.wf(),
        ensures
            match r {
                Some(v) => self@.contains_key(k) && self@[k] == *v,
                None => !self@.contains_key(k),
            },
    {
        proof {
            broadcast use lemma_sorted_distinct;
        }
        let n = self.rows.len();
        let mut i: usize = 0;
        while i < n
            invariant
                n == self.spec_rows().len(),
                i <= n,
                self.wf(),
                forall|j: int| 0 <= j < i ==> (#[trigger] self.spec_rows()[j]).0 != k,
            decreases n - i,
        {
            let row = &self.rows[i];
            if row.0 == k {
                proof {
                    lemma_kv_row(self.spec_rows(), i as int);
                }
                return Some(&row.1);
            }
            i = i + 1;
        }
        assert(!kv_has(self.spec_rows(), k));
        None
    }

    /// Write the row for `k`, replacing any persisted one.
    pub fn insert(&mut self, k: u128, v: V)
        requires
            old(self).wf(),
        ensures
            final(self).wf(),
            final(self)@ == old(self)@.insert(k, v),
    {
        proof {
            broadcast use lemma_sorted_distinct;
        }
        let ghost s0 = old(self).spec_rows();
        let n = self.rows.len();
        let mut pos: usize = 0;
        while pos < n && self.rows[pos].0 < k
            invariant
                n == self.spec_rows().len(),
                pos <= n,
                self.wf(),
                self.spec_rows() == s0,
                forall|j: int| 0 <= j < pos ==> (#[trigger] self.spec_rows()[j]).0 < k,
            decreases n - pos,
        {
            pos = pos + 1;
        }
        // Rows before `pos` have keys below `k`; rows from `pos` on have keys
        // at or above it.
        assert forall|j: int| pos <= j < s0.len() implies k <= (#[trigger] s0[j]).0 by {
            if j != pos {
                assert(s0[pos as int].0 < s0[j].0);
            }
        }
        if pos < n && self.rows[pos].0 == k {
            let _ = self.rows.remove(pos);
            self.rows.insert(pos, (k, v));
            proof {
                let s2 = self.spec_rows();
                assert(s2 =~= s0.update(pos as int, (k, v)));
                lemma_kv_update(s0, pos as int, k, v);
            }
        } else {
            self.rows.insert(pos, (k, v));
            proof {
                let s2 = self.spec_rows();
                s0.insert_ensures(pos as int, (k, v));
                lemma_kv_insert(s0, pos as int, k, v);
            }
        }
    }

    /// Remove the row for `k`, a no-op when none is persisted.
    #[verifier::loop_isolation(false)]
    pub fn remove(&mut self, k: u128)
        requires
            old(self).wf(),
        ensures
            final(self).wf(),
            final(self)@ == old(self)@.remove(k),
    {
        proof {
            broadcast use lemma_sorted_distinct;
        }
        let ghost s0 = old(self).spec_rows();
        let n = self.rows.len();
        let mut i: usize = 0;
        while i < n
            invariant
                n == self.spec_rows().len(),
                i <= n,
                self.wf(),
                self.spec_rows() == s0,
                forall|j: int| 0 <= j < i ==> (#[trigger] self.spec_rows()[j]).0 != k,
            decreases n - i,
        {
            if self.rows[i].0 == k {
                let _ = self.rows.remove(i);
                proof {
                    lemma_kv_remove(s0, i as int, k);
                }
                return;
            }
            i = i + 1;
        }
        proof {
            assert(!kv_has(s0, k));
            assert(self@ =~= old(self)@.remove(k));
        }
    }

    /// Borrow the persisted rows, for ordered scans.
    pub fn all_rows(&self) -> (r: &Vec<(u128, V)>)
        ensures
            r@ == self.spec_rows(),
    {
        &self.rows
    }
}

impl<V> View for Table<V> {
    type V = Map<u128, V>;

    open spec fn view(&self) -> Map<u128, V> {
        kv_map(self.spec_rows())
    }
}

/// Replacing the row at `i`, which already carries `k`, updates the map view
/// at `k` alone.
pub proof fn lemma_kv_update<T>(s: Seq<(u128, T)>, i: int, k: u128, v: T)
    requires
        keys_distinct(s),
        0 <= i < s.len(),
        s[i].0 == k,
    ensures
        keys_distinct(s.update(i, (k, v))),
        kv_map(s.update(i, (k, v))) == kv_map(s).insert(k, v),
{
    let s2 = s.update(i, (k, v));
    assert(keys_distinct(s2));
    assert forall|key: u128| #[trigger] kv_map(s2).contains_key(key) implies kv_map(s).insert(
        k,
        v,
    ).contains_key(key) by {
        let j = choose|j: int| 0 <= j < s2.len() && (#[trigger] s2[j]).0 == key;
        if j != i {
            assert(s[j].0 == key);
            assert(kv_has(s, key));
        }
    }
    assert forall|key: u128| #[trigger]
        kv_map(s).insert(k, v).contains_key(key) implies kv_map(s2).contains_key(key) by {
        if key == k {
            assert(s2[i].0 == key);
            assert(kv_has(s2, key));
        } else {
            let j = choose|j: int| 0 <= j < s.len() && (#[trigger] s[j]).0 == key;
            assert(s2[j].0 == key);
            assert(kv_has(s2, key));
        }
    }
    assert forall|key: u128| kv_map(s2).contains_key(key) implies #[trigger] kv_map(s2)[key]
        == kv_map(s).insert(k, v)[key] by {
        if key == k {
            lemma_kv_row(s2, i);
        } else {
            let j = choose|j: int| 0 <= j < s2.len() && (#[trigger] s2[j]).0 == key;
            assert(j != i);
            lemma_kv_row(s2, j);
            assert(s[j].0 == key);
            lemma_kv_row(s, j);
        }
    }
    assert(kv_map(s2) =~= kv_map(s).insert(k, v));
}

/// Inserting a fresh row at the boundary position keeps the rows sorted and
/// adds `k` to the map view.
pub proof fn lemma_kv_insert<T>(s: Seq<(u128, T)>, pos: int, k: u128, v: T)
    requires
        keys_sorted(s),
        0 <= pos <= s.len(),
        forall|j: int| 0 <= j < pos ==> (#[trigger] s[j]).0 < k,
        forall|j: int| pos <= j < s.len() ==> (#[trigger] s[j]).0 > k,
    ensures
        keys_sorted(s.insert(pos, (k, v))),
        kv_map(s.insert(pos, (k, v))) == kv_map(s).insert(k, v),
{
    broadcast use lemma_sorted_distinct;

    let s2 = s.insert(pos, (k, v));
    s.insert_ensures(pos, (k, v));
    assert forall|i: int, j: int| 0 <= i < j < s2.len() implies (#[trigger] s2[i]).0 < (
    #[trigger] s2[j]).0 by {
        let oi = if i < pos { i } else { i - 1 };
        let oj = if j < pos { j } else { j - 1 };
        if i == pos {
            assert(s2[j] == s[j - 1]);
        } else if j == pos {
            assert(s2[i] == s[i]);
        } else {
            assert(s2[i] == s[oi]);
            assert(s2[j] == s[oj]);
        }
    }
    assert(keys_sorted(s2));
    assert forall|key: u128| #[trigger] kv_map(s2).contains_key(key) implies kv_map(s).insert(
        k,
        v,
    ).contains_key(key) by {
        let j = choose|j: int| 0 <= j < s2.len() && (#[trigger] s2[j]).0 == key;
        if j != pos {
            let oj = if j < pos { j } else { j - 1 };
            assert(s[oj].0 == key);
            assert(kv_has(s, key));
        }
    }
    assert forall|key: u128| #[trigger]
        kv_map(s).insert(k, v).contains_key(key) implies kv_map(s2).contains_key(key) by {
        if key == k {
            assert(s2[pos].0 == key);
            assert(kv_has(s2, key));
        } else {
            let j = choose|j: int| 0 <= j < s.len() && (#[trigger] s[j]).0 == key;
            let nj = if j < pos { j } else { j + 1 };
            assert(s2[nj].0 == key);
            assert(kv_has(s2, key));
        }
    }
    assert forall|key: u128| kv_map(s2).contains_key(key) implies #[trigger] kv_map(s2)[key]
        == kv_map(s).insert(k, v)[key] by {
        if key == k {
            lemma_kv_row(s2, pos);
        } else {
            let j = choose|j: int| 0 <= j < s2.len() && (#[trigger] s2[j]).0 == key;
            assert(j != pos);
            lemma_kv_row(s2, j);
            let oj = if j < pos { j } else { j - 1 };
            assert(s[oj].0 == key);
            lemma_kv_row(s, oj);
        }
    }
    assert(kv_map(s2) =~= kv_map(s).insert(k, v));
}

/// Removing the row that carries `k` removes `k` from the map view alone.
pub proof fn lemma_kv_remove<T>(s: Seq<(u128, T)>, i: int, k: u128)
    requires
        keys_sorted(s),
        0 <= i < s.len(),
        s[i].0 == k,
    ensures
        keys_sorted(s.remove(i)),
        kv_map(s.remove(i)) == kv_map(s).remove(k),
{
    broadcast use lemma_sorted_distinct;

    let s2 = s.remove(i);
    s.remove_ensures(i);
    assert forall|a: int, b: int| 0 <= a < b < s2.len() implies (#[trigger] s2[a]).0 < (
    #[trigger] s2[b]).0 by {
        let oa = if a < i { a } else { a + 1 };
        let ob = if b < i { b } else { b + 1 };
        assert(s2[a] == s[oa]);
        assert(s2[b] == s[ob]);
    }
    assert(keys_sorted(s2));
    assert forall|key: u128| #[trigger] kv_map(s2).contains_key(key) implies kv_map(s).remove(
        k,
    ).contains_key(key) by {
        let j = choose|j: int| 0 <= j < s2.len() && (#[trigger] s2[j]).0 == key;
        let oj = if j < i { j } else { j + 1 };
        assert(s[oj].0 == key);
        assert(kv_has(s, key));
        assert(oj != i);
        assert(key != k);
    }
    assert forall|key: u128| #[trigger]
        kv_map(s).remove(k).contains_key(key) implies kv_map(s2).contains_key(key) by {
        let j = choose|j: int| 0 <= j < s.len() && (#[trigger] s[j]).0 == key;
        assert(j != i);
        let nj = if j < i { j } else { j - 1 };
        assert(s2[nj].0 == key);
        assert(kv_has(s2, key));
    }
    assert forall|key: u128| kv_map(s2).contains_key(key) implies #[trigger] kv_map(s2)[key]
        == kv_map(s).remove(k)[key] by {
        let j = choose|j: int| 0 <= j < s2.len() && (#[trigger] s2[j]).0 == key;
        lemma_kv_row(s2, j);
        let oj = if j < i { j } else { j + 1 };
        assert(s[oj].0 == key);
        lemma_kv_row(s, oj);
    }
    assert(kv_map(s2) =~= kv_map(s).remove(k));
}


/// Appending a row with a fresh key adds that key to the map view alone.
pub proof fn lemma_kv_push<T>(s: Seq<(u128, T)>, k: u128, v: T)
    requires
        keys_distinct(s),
        !kv_has(s, k),
    ensures
        keys_distinct(s.push((k, v))),
        kv_map(s.push((k, v))) == kv_map(s).insert(k, v),
{
    let s2 = s.push((k, v));
    let n = s.len() as int;
    assert forall|i: int, j: int| 0 <= i < j < s2.len() implies (#[trigger] s2[i]).0 != (
    #[trigger] s2[j]).0 by {
        if j == n {
            assert(s2[i] == s[i]);
            if s[i].0 == k {
                assert(kv_has(s, k));
            }
        } else {
            assert(s2[i] == s[i]);
            assert(s2[j] == s[j]);
        }
    }
    assert forall|key: u128| #[trigger] kv_map(s2).contains_key(key) implies kv_map(s).insert(
        k,
        v,
    ).contains_key(key) by {
        let j = choose|j: int| 0 <= j < s2.len() && (#[trigger] s2[j]).0 == key;
        if j != n {
            assert(s[j].0 == key);
            assert(kv_has(s, key));
        }
    }
    assert forall|key: u128| #[trigger]
        kv_map(s).insert(k, v).contains_key(key) implies kv_map(s2).contains_key(key) by {
        if key == k {
            assert(s2[n].0 == key);
            assert(kv_has(s2, key));
        } else {
            let j = choose|j: int| 0 <= j < s.len() && (#[trigger] s[j]).0 == key;
            assert(s2[j].0 == key);
            assert(kv_has(s2, key));
        }
    }
    assert forall|key: u128| kv_map(s2).contains_key(key) implies #[trigger] kv_map(s2)[key]
        == kv_map(s).insert(k, v)[key] by {
        if key == k {
            lemma_kv_row(s2, n);
        } else {
            let j = choose|j: int| 0 <= j < s2.len() && (#[trigger] s2[j]).0 == key;
            assert(j != n);
            lemma_kv_row(s2, j);
            assert(s[j].0 == key);
            lemma_kv_row(s, j);
        }
    }
    assert(kv_map(s2) =~= kv_map(s).insert(k, v));
}

impl<V: Copy> Table<V> {
    /// An exact copy, taken when a write transaction stages the store.
    pub fn dup(&self) -> (r: Self)
        ensures
            r.spec_rows() == self.spec_rows(),
            r@ == self@,
    {
        let mut rows: Vec<(u128, V)> = Vec::new();
        let src = self.all_rows();
        let n = src.len();
        let mut i: usize = 0;
        while i < n
            invariant
                n == src@.len(),
                src@ == self.spec_rows(),
                i <= n,
                rows@ == self.spec_rows().subrange(0, i as int),
            decreases n - i,
        {
            rows.push(src[i]);
            assert(rows@ =~= self.spec_rows().subrange(0, i as int + 1));
            i = i + 1;
        }
        let r = Table { rows };
        proof {
            assert(r.spec_rows() =~= self.spec_rows());
        }
        r
    }
}

} // verus!
