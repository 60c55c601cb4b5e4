//! The buffered key-value store: a transient scratch overlay of puts and
//! deletes atop one persisted table. Reads consult the overlay first; writes
//! touch only the overlay; `flush_to_txn` applies the overlay to the staged
//! table of a write transaction, once, as the sole commit point.

use vstd::prelude::*;
use crate::table::Table;
use crate::table::keys_distinct;
use crate::table::kv_has;
use crate::table::kv_map;
use crate::table::lemma_kv_push;
use crate::table::lemma_kv_row;
use crate::table::lemma_kv_update;

verus! {

/// A buffered write: set the key to this value, or shadow it with absence.
#[derive(Clone, Copy)]
enum KvOp<V> {
    Put(V),
    Del,
}

/// What one buffered write means for the key it covers.
spec fn op_view<V>(op: KvOp<V>) -> Option<V> {
    match op {
        KvOp::Put(v) => Some(v),
        KvOp::Del => None,
    }
}

/// The scratch rows with each write read as `Some`/`None`.
spec fn scratch_view<V>(s: Seq<(u128, KvOp<V>)>) -> Seq<(u128, Option<V>)> {
    s.map(|i: int, p: (u128, KvOp<V>)| (p.0, op_view(p.1)))
}

/// What the overlay says about `k`: a buffered write wins over the persisted
/// row; otherwise the persisted row, if any, answers.
pub open spec fn effective_get<V>(sc: Map<u128, Option<V>>, m: Map<u128, V>, k: u128) -> Option<
    V,
> {
    if sc.contains_key(k) {
        sc[k]
    } else if m.contains_key(k) {
        Some(m[k])
    } else {
        None
    }
}

/// The persisted map as the overlay would leave it after a flush.
pub open spec fn apply_scratch<V>(sc: Map<u128, Option<V>>, m: Map<u128, V>) -> Map<u128, V> {
    Map::new(
        |k: u128| effective_get(sc, m, k) is Some,
        |k: u128| effective_get(sc, m, k)->Some_0,
    )
}

/// A persisted key-value table with a transient overlay of puts and deletes,
/// applied to persisted storage only by `flush_to_txn`.
pub struct KvIntBuffer<V> {
    scratch: Vec<(u128, KvOp<V>)>,
}

impl<V: Copy> KvIntBuffer<V> {
    /// The overlay keys cover each key at most once.
    pub closed spec fn wf(self) -> bool {
        keys_distinct(self.scratch@)
    }

    spec fn sview(self) -> Seq<(u128, Option<V>)> {
        scratch_view(self.scratch@)
    }

    /// A buffer with an empty overlay.
    pub fn new() -> (r: Self)
        ensures
            r.wf(),
            r@ == Map::<u128, Option<V>>::empty(),
    {
        let r = KvIntBuffer { scratch: Vec::new() };
        proof {
            assert(r@ =~= Map::<u128, Option<V>>::empty());
        }
        r
    }

    /// A fresh buffer over the same persisted table, with nothing buffered.
    pub fn with_reader(&self) -> (r: Self)
        ensures
            r.wf(),
            r@ == Map::<u128, Option<V>>::empty(),
    {
        Self::new()
    }

    /// Read `k`: a buffered put shadows the persisted value, a buffered
    /// delete shadows it with absence, and otherwise the persisted row
    /// answers.
    pub fn get(&self, table: &Table<V>, k: u128) -> (r: Option<V>)
        requires
            self.wf(),
            table.wf(),
        ensures
            r == effective_get(self@, table@, k),
    {
        let n = self.scratch.len();
        let mut i: usize = 0;
        while i < n
            invariant
                self.wf(),
                table.wf(),
                n == self.scratch@.len(),
                i <= n,
                forall|j: int| 0 <= j < i ==> (#[trigger] self.scratch@[j]).0 != k,
            decreases n - i,
        {
            let row = &self.scratch[i];
            if row.0 == k {
                proof {
                    assert(self.sview()[i as int] == (k, op_view(self.scratch@[i as int].1)));
                    lemma_kv_row(self.sview(), i as int);
                }
                match &row.1 {
                    KvOp::Put(v) => {
                        return Some(*v);
                    },
                    KvOp::Del => {
                        return None;
                    },
                }
            }
            i = i + 1;
        }
        proof {
            assert forall|j: int| 0 <= j < self.sview().len() implies (
            #[trigger] self.sview()[j]).0 != k by {
                assert(self.sview()[j].0 == self.scratch@[j].0);
            }
            assert(!kv_has(self.sview(), k));
            assert(!self@.contains_key(k));
        }
        match table.get(k) {
            Some(v) => Some(*v),
            None => None,
        }
    }

    /// Buffer a write of `v` under `k`; persisted storage is untouched.
    pub fn put(&mut self, k: u128, v: V)
        requires
            old(self).wf(),
        ensures
            final(self).wf(),
            final(self)@ == old(self)@.insert(k, Some(v)),
    {
        self.upsert(k, KvOp::Put(v));
    }

    /// Buffer a delete of `k`; persisted storage is untouched.
    pub fn delete(&mut self, k: u128)
        requires
            old(self).wf(),
        ensures
            final(self).wf(),
            final(self)@ == old(self)@.insert(k, None),
    {
        self.upsert(k, KvOp::Del);
    }

    /// Record `op` as the buffered write covering `k`.
    #[verifier::loop_isolation(false)]
    fn upsert(&mut self, k: u128, op: KvOp<V>)
        requires
            old(self).wf(),
        ensures
            final(self).wf(),
            final(self)@ == old(self)@.insert(k, op_view(op)),
    {
        let ghost s0 = old(self).scratch@;
        let n = self.scratch.len();
        let mut i: usize = 0;
        while i < n
            invariant
                i <= n,
                n == s0.len(),
                self.scratch@ == s0,
                forall|j: int| 0 <= j < i ==> (#[trigger] s0[j]).0 != k,
            decreases n - i,
        {
            if self.scratch[i].0 == k {
                let _ = self.scratch.remove(i);
                self.scratch.insert(i, (k, op));
                proof {
                    assert(self.scratch@ =~= s0.update(i as int, (k, op)));
                    assert(self.sview() =~= scratch_view(s0).update(
                        i as int,
                        (k, op_view(op)),
                    )) by {
                        assert forall|j: int| 0 <= j < self.sview().len() implies self.sview()[j]
                            == scratch_view(s0).update(i as int, (k, op_view(op)))[j] by {
                            assert(self.sview()[j] == (
                                self.scratch@[j].0,
                                op_view(self.scratch@[j].1),
                            ));
                        }
                    }
                    assert forall|a: int, b: int|
                        0 <= a < b < scratch_view(s0).len() implies (
                    #[trigger] scratch_view(s0)[a]).0 != (#[trigger] scratch_view(s0)[b]).0 by {
                        assert(scratch_view(s0)[a].0 == s0[a].0);
                        assert(scratch_view(s0)[b].0 == s0[b].0);
                    }
                    assert(scratch_view(s0)[i as int].0 == k);
                    lemma_kv_update(scratch_view(s0), i as int, k, op_view(op));
                }
                return;
            }
            i = i + 1;
        }
        self.scratch.push((k, op));
        proof {
            assert(self.scratch@ =~= s0.push((k, op)));
            assert(self.sview() =~= scratch_view(s0).push((k, op_view(op)))) by {
                assert forall|j: int| 0 <= j < self.sview().len() implies self.sview()[j]
                    == scratch_view(s0).push((k, op_view(op)))[j] by {
                    assert(self.sview()[j] == (self.scratch@[j].0, op_view(self.scratch@[j].1)));
                }
            }
            assert forall|a: int, b: int| 0 <= a < b < scratch_view(s0).len() implies (
            #[trigger] scratch_view(s0)[a]).0 != (#[trigger] scratch_view(s0)[b]).0 by {
                assert(scratch_view(s0)[a].0 == s0[a].0);
                assert(scratch_view(s0)[b].0 == s0[b].0);
            }
            assert forall|j: int| 0 <= j < scratch_view(s0).len() implies (
            #[trigger] scratch_view(s0)[j]).0 != k by {
                assert(scratch_view(s0)[j].0 == s0[j].0);
            }
            assert(!kv_has(scratch_view(s0), k));
            lemma_kv_push(scratch_view(s0), k, op_view(op));
        }
    }

    /// Scan the persisted rows in key order, deliberately ignoring the
    /// overlay: a caller that needs overlay-consistent iteration must flush
    /// first.
    pub fn iter_raw(&self, table: &Table<V>) -> (r: Vec<(u128, V)>)
        ensures
            r@ == table.spec_rows(),
    {
        let src = table.all_rows();
        let n = src.len();
        let mut out: Vec<(u128, V)> = Vec::new();
        let mut i: usize = 0;
        while i < n
            invariant
                n == src@.len(),
                src@ == table.spec_rows(),
                i <= n,
                out@ == table.spec_rows().subrange(0, i as int),
            decreases n - i,
        {
            out.push(src[i]);
            assert(out@ =~= table.spec_rows().subrange(0, i as int + 1));
            i = i + 1;
        }
        assert(out@ =~= table.spec_rows());
        out
    }

    /// Scan the persisted rows in reverse key order, ignoring the overlay.
    pub fn iter_raw_reverse(&self, table: &Table<V>) -> (r: Vec<(u128, V)>)
        ensures
            r@ == table.spec_rows().reverse(),
    {
        let src = table.all_rows();
        let n = src.len();
        let mut out: Vec<(u128, V)> = Vec::new();
        let mut i: usize = 0;
        while i < n
            invariant
                n == src@.len(),
                src@ == table.spec_rows(),
                i <= n,
                out@.len() == i,
                forall|j: int| 0 <= j < i ==> out@[j] == table.spec_rows()[n - 1 - j],
            decreases n - i,
        {
            out.push(src[n - 1 - i]);
            i = i + 1;
        }
        assert(out@ =~= table.spec_rows().reverse());
        out
    }


    /// Find the buffered write covering `k`, if any.
    fn scratch_find(&self, k: u128) -> (r: Option<Option<V>>)
        requires
            self.wf(),
        ensures
            match r {
                Some(o) => self@.contains_key(k) && self@[k] == o,
                None => !self@.contains_key(k),
            },
    {
        let n = self.scratch.len();
        let mut i: usize = 0;
        while i < n
            invariant
                self.wf(),
                n == self.scratch@.len(),
                i <= n,
                forall|j: int| 0 <= j < i ==> (#[trigger] self.scratch@[j]).0 != k,
            decreases n - i,
        {
            let row = &self.scratch[i];
            if row.0 == k {
                proof {
                    assert(self.sview()[i as int] == (k, op_view(self.scratch@[i as int].1)));
                    lemma_kv_row(self.sview(), i as int);
                }
                match &row.1 {
                    KvOp::Put(v) => {
                        return Some(Some(*v));
                    },
                    KvOp::Del => {
                        return Some(None);
                    },
                }
            }
            i = i + 1;
        }
        proof {
            assert forall|j: int| 0 <= j < self.sview().len() implies (
            #[trigger] self.sview()[j]).0 != k by {
                assert(self.sview()[j].0 == self.scratch@[j].0);
            }
            assert(!kv_has(self.sview(), k));
        }
        None
    }

    /// Scan the store as the overlay leaves it: every persisted row not
    /// shadowed by a buffered delete, with buffered puts taking precedence,
    /// plus the buffered puts for keys with no persisted row.
    pub fn merged_rows(&self, table: &Table<V>) -> (r: Vec<(u128, V)>)
        requires
            self.wf(),
            table.wf(),
        ensures
            keys_distinct(r@),
            kv_map(r@) == apply_scratch(self@, table@),
    {
        proof {
            crate::table::lemma_sorted_distinct(table.spec_rows());
        }
        let mut out: Vec<(u128, V)> = Vec::new();
        let rows = table.all_rows();
        let n = rows.len();
        let mut i: usize = 0;
        while i < n
            invariant
                self.wf(),
                table.wf(),
                n == table.spec_rows().len(),
                rows@ == table.spec_rows(),
                i <= n,
                keys_distinct(out@),
                forall|q: int|
                    0 <= q < out@.len() ==> effective_get(self@, table@, (#[trigger] out@[q]).0)
                        == Some(out@[q].1),
                forall|q: int|
                    0 <= q < out@.len() ==> exists|t: int|
                        0 <= t < i && (#[trigger] out@[q]).0 == table.spec_rows()[t].0,
                forall|t: int|
                    0 <= t < i && effective_get(
                        self@,
                        table@,
                        (#[trigger] table.spec_rows()[t]).0,
                    ) is Some ==> kv_has(out@, table.spec_rows()[t].0),
            decreases n - i,
        {
            let ghost out0 = out@;
            let row = rows[i];
            let ghost k = row.0;
            proof {
                crate::table::lemma_kv_row(table.spec_rows(), i as int);
                assert forall|q: int| 0 <= q < out0.len() implies (#[trigger] out0[q]).0 != k by {
                    let t = choose|t: int| 0 <= t < i && out0[q].0 == table.spec_rows()[t].0;
                    assert(table.spec_rows()[t].0 != table.spec_rows()[i as int].0);
                }
            }
            match self.scratch_find(row.0) {
                Some(o) => {
                    match o {
                        Some(v2) => {
                            out.push((row.0, v2));
                        },
                        None => {},
                    }
                },
                None => {
                    out.push((row.0, row.1));
                },
            }
            proof {
                assert forall|q: int|
                    0 <= q < out@.len() implies effective_get(
                    self@,
                    table@,
                    (#[trigger] out@[q]).0,
                ) == Some(out@[q].1) by {
                    if q < out0.len() {
                        assert(out@[q] == out0[q]);
                    }
                }
                assert forall|q: int| 0 <= q < out@.len() implies exists|t: int|
                    0 <= t < i + 1 && (#[trigger] out@[q]).0 == table.spec_rows()[t].0 by {
                    if q < out0.len() {
                        assert(out@[q] == out0[q]);
                        let t = choose|t: int|
                            0 <= t < i && out0[q].0 == table.spec_rows()[t].0;
                        assert(0 <= t < i + 1 && out@[q].0 == table.spec_rows()[t].0);
                    } else {
                        assert(out@[q].0 == table.spec_rows()[i as int].0);
                    }
                }
                assert forall|t: int|
                    0 <= t < i + 1 && effective_get(
                        self@,
                        table@,
                        (#[trigger] table.spec_rows()[t]).0,
                    ) is Some implies kv_has(out@, table.spec_rows()[t].0) by {
                    let tk = table.spec_rows()[t].0;
                    if t < i {
                        let q = choose|q: int| 0 <= q < out0.len() && (#[trigger] out0[q]).0 == tk;
                        assert(out@[q].0 == tk);
                    } else {
                        assert(out@[out@.len() - 1].0 == tk);
                    }
                }
                assert forall|a: int, b: int| 0 <= a < b < out@.len() implies (
                #[trigger] out@[a]).0 != (#[trigger] out@[b]).0 by {
                    if b < out0.len() {
                        assert(out@[a] == out0[a]);
                        assert(out@[b] == out0[b]);
                    } else if b == out0.len() && out@.len() == out0.len() + 1 {
                        assert(out@[a] == out0[a]);
                        assert(out@[b].0 == k);
                    }
                }
            }
            i = i + 1;
        }
        // Buffered puts whose keys have no persisted row.
        let m = self.scratch.len();
        let ghost outp = out@;
        let mut j: usize = 0;
        while j < m
            invariant
                self.wf(),
                table.wf(),
                m == self.scratch@.len(),
                j <= m,
                keys_distinct(out@),
                forall|q: int|
                    0 <= q < out@.len() ==> effective_get(self@, table@, (#[trigger] out@[q]).0)
                        == Some(out@[q].1),
                forall|t: int|
                    0 <= t < table.spec_rows().len() && effective_get(
                        self@,
                        table@,
                        (#[trigger] table.spec_rows()[t]).0,
                    ) is Some ==> kv_has(out@, table.spec_rows()[t].0),
                forall|q: int|
                    0 <= q < out@.len() ==> table@.contains_key((#[trigger] out@[q]).0)
                        || exists|s: int|
                        0 <= s < j && (#[trigger] out@[q]).0 == self.scratch@[s].0,
                forall|s: int|
                    0 <= s < j && op_view((#[trigger] self.scratch@[s]).1) is Some
                        && !table@.contains_key(self.scratch@[s].0) ==> kv_has(
                        out@,
                        self.scratch@[s].0,
                    ),
            decreases m - j,
        {
            let ghost out0 = out@;
            let row = self.scratch[j];
            let ghost k = row.0;
            proof {
                assert(self.sview()[j as int] == (k, op_view(self.scratch@[j as int].1)));
                lemma_kv_row(self.sview(), j as int);
            }
            match row.1 {
                KvOp::Put(v) => {
                    match table.get(row.0) {
                        Some(_) => {},
                        None => {
                            proof {
                                assert forall|q: int| 0 <= q < out0.len() implies (
                                #[trigger] out0[q]).0 != k by {
                                    if !table@.contains_key(out0[q].0) {
                                        let s = choose|s: int|
                                            0 <= s < j && out0[q].0 == self.scratch@[s].0;
                                        assert(self.scratch@[s].0 != self.scratch@[j as int].0);
                                    }
                                }
                            }
                            out.push((row.0, v));
                        },
                    }
                },
                KvOp::Del => {},
            }
            proof {
                assert forall|q: int|
                    0 <= q < out@.len() implies effective_get(
                    self@,
                    table@,
                    (#[trigger] out@[q]).0,
                ) == Some(out@[q].1) by {
                    if q < out0.len() {
                        assert(out@[q] == out0[q]);
                    }
                }
                assert forall|t: int|
                    0 <= t < table.spec_rows().len() && effective_get(
                        self@,
                        table@,
                        (#[trigger] table.spec_rows()[t]).0,
                    ) is Some implies kv_has(out@, table.spec_rows()[t].0) by {
                    let tk = table.spec_rows()[t].0;
                    let q = choose|q: int| 0 <= q < out0.len() && (#[trigger] out0[q]).0 == tk;
                    assert(out@[q].0 == tk);
                }
                assert forall|q: int|
                    0 <= q < out@.len() implies table@.contains_key((#[trigger] out@[q]).0)
                        || exists|s: int|
                        0 <= s < j + 1 && (#[trigger] out@[q]).0 == self.scratch@[s].0 by {
                    if q < out0.len() {
                        assert(out@[q] == out0[q]);
                        if !table@.contains_key(out0[q].0) {
                            let s = choose|s: int|
                                0 <= s < j && out0[q].0 == self.scratch@[s].0;
                            assert(0 <= s < j + 1 && out@[q].0 == self.scratch@[s].0);
                        }
                    } else {
                        assert(out@[q].0 == self.scratch@[j as int].0);
                    }
                }
                assert forall|s: int|
                    0 <= s < j + 1 && op_view((#[trigger] self.scratch@[s]).1) is Some
                        && !table@.contains_key(self.scratch@[s].0) implies kv_has(
                    out@,
                    self.scratch@[s].0,
                ) by {
                    let sk = self.scratch@[s].0;
                    if s < j {
                        let q = choose|q: int| 0 <= q < out0.len() && (#[trigger] out0[q]).0 == sk;
                        assert(out@[q].0 == sk);
                    } else {
                        assert(out@[out@.len() - 1].0 == sk);
                    }
                }
                assert forall|a: int, b: int| 0 <= a < b < out@.len() implies (
                #[trigger] out@[a]).0 != (#[trigger] out@[b]).0 by {
                    if b < out0.len() {
                        assert(out@[a] == out0[a]);
                        assert(out@[b] == out0[b]);
                    } else if b == out0.len() && out@.len() == out0.len() + 1 {
                        assert(out@[a] == out0[a]);
                        assert(out@[b].0 == k);
                        assert(!table@.contains_key(k));
                        if !table@.contains_key(out0[a].0) {
                            let s = choose|s: int|
                                0 <= s < j && out0[a].0 == self.scratch@[s].0;
                            assert(self.scratch@[s].0 != self.scratch@[j as int].0);
                        }
                    }
                }
            }
            j = j + 1;
        }
        proof {
            let eff = apply_scratch(self@, table@);
            assert forall|key: u128| #[trigger] kv_map(out@).contains_key(key) implies eff.contains_key(
                key,
            ) && kv_map(out@)[key] == eff[key] by {
                let q = choose|q: int| 0 <= q < out@.len() && (#[trigger] out@[q]).0 == key;
                lemma_kv_row(out@, q);
                assert(effective_get(self@, table@, key) == Some(out@[q].1));
            }
            assert forall|key: u128| #[trigger] eff.contains_key(key) implies kv_map(
                out@,
            ).contains_key(key) by {
                if table@.contains_key(key) {
                    let t = choose|t: int|
                        0 <= t < table.spec_rows().len() && (#[trigger] table.spec_rows()[t]).0
                            == key;
                    assert(kv_has(out@, key));
                } else {
                    assert(self@.contains_key(key) && self@[key] is Some);
                    let s = choose|s: int|
                        0 <= s < self.sview().len() && (#[trigger] self.sview()[s]).0 == key;
                    assert(self.sview()[s] == (
                        self.scratch@[s].0,
                        op_view(self.scratch@[s].1),
                    ));
                    lemma_kv_row(self.sview(), s);
                    assert(op_view(self.scratch@[s].1) is Some);
                    assert(kv_has(out@, key));
                }
            }
            assert(kv_map(out@) =~= eff);
        }
        out
    }

    /// Apply every buffered write to the staged table of a write
    /// transaction. Consumes the buffer: each buffer flushes at most once,
    /// and nothing reaches persisted storage except through this point.
    pub fn flush_to_txn(self, table: &mut Table<V>)
        requires
            self.wf(),
            old(table).wf(),
        ensures
            final(table).wf(),
            final(table)@ == apply_scratch(self@, old(table)@),
    {
        let ghost t0 = old(table)@;
        let ghost sv = self.sview();
        let n = self.scratch.len();
        let mut i: usize = 0;
        proof {
            assert(kv_map(sv.subrange(0, 0)) =~= Map::<u128, Option<V>>::empty());
            assert(apply_scratch(kv_map(sv.subrange(0, 0)), t0) =~= t0);
        }
        while i < n
            invariant
                n == self.scratch@.len(),
                sv == self.sview(),
                self.wf(),
                i <= n,
                table.wf(),
                table@ == apply_scratch(kv_map(sv.subrange(0, i as int)), t0),
            decreases n - i,
        {
            let ghost pre = kv_map(sv.subrange(0, i as int));
            let row = self.scratch[i];
            proof {
                assert forall|a: int, b: int| 0 <= a < b < sv.len() implies (
                #[trigger] sv[a]).0 != (#[trigger] sv[b]).0 by {
                    assert(sv[a].0 == self.scratch@[a].0);
                    assert(sv[b].0 == self.scratch@[b].0);
                }
                let prefix = sv.subrange(0, i as int);
                assert forall|j: int| 0 <= j < prefix.len() implies (#[trigger] prefix[j]).0
                    != row.0 by {
                    assert(prefix[j] == sv[j]);
                    assert(sv[j].0 == self.scratch@[j].0);
                    assert(sv[i as int].0 == self.scratch@[i as int].0);
                }
                assert(!kv_has(prefix, row.0));
                assert(keys_distinct(prefix)) by {
                    assert forall|a: int, b: int| 0 <= a < b < prefix.len() implies (
                    #[trigger] prefix[a]).0 != (#[trigger] prefix[b]).0 by {
                        assert(prefix[a] == sv[a]);
                        assert(prefix[b] == sv[b]);
                    }
                }
                lemma_kv_push(prefix, row.0, op_view(row.1));
                assert(sv.subrange(0, i as int + 1) =~= prefix.push(
                    (row.0, op_view(row.1)),
                )) by {
                    assert(sv[i as int] == (
                        self.scratch@[i as int].0,
                        op_view(self.scratch@[i as int].1),
                    ));
                }
            }
            match row.1 {
                KvOp::Put(v) => {
                    table.insert(row.0, v);
                    proof {
                        lemma_apply_scratch_put(pre, t0, row.0, v);
                    }
                },
                KvOp::Del => {
                    table.remove(row.0);
                    proof {
                        lemma_apply_scratch_del(pre, t0, row.0);
                    }
                },
            }
            i = i + 1;
        }
        proof {
            assert(sv.subrange(0, n as int) =~= sv);
        }
    }
}

impl<V: Copy> View for KvIntBuffer<V> {
    type V = Map<u128, Option<V>>;

    closed spec fn view(&self) -> Map<u128, Option<V>> {
        kv_map(scratch_view(self.scratch@))
    }
}

/// Recording one more put in the overlay moves the flushed map by exactly
/// that insertion.
pub proof fn lemma_apply_scratch_put<V>(sc: Map<u128, Option<V>>, m: Map<u128, V>, k: u128, v: V)
    ensures
        apply_scratch(sc.insert(k, Some(v)), m) == apply_scratch(sc, m).insert(k, v),
{
    assert(apply_scratch(sc.insert(k, Some(v)), m) =~= apply_scratch(sc, m).insert(k, v));
}

/// Recording one more delete in the overlay moves the flushed map by exactly
/// that removal.
pub proof fn lemma_apply_scratch_del<V>(sc: Map<u128, Option<V>>, m: Map<u128, V>, k: u128)
    ensures
        apply_scratch(sc.insert(k, None), m) == apply_scratch(sc, m).remove(k),
{
    assert(apply_scratch(sc.insert(k, None), m) =~= apply_scratch(sc, m).remove(k));
}

} // verus!
