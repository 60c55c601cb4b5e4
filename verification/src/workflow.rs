//! The operation-integration workflow: drain the integration queue, resolve
//! each operation's dependencies against the content-addressed store, apply
//! its effects to the store and metadata buffers, and commit the whole batch
//! under one write transaction. An operation whose dependency is missing is
//! left queued, untouched, to be retried on the next trigger.

use vstd::prelude::*;
use crate::Address;
use crate::Signed;
use crate::cas::CasBuf;
use crate::db::DbState;
use crate::db::DbView;
use crate::db::WriteTxn;
use crate::db::spec_pack;
use crate::dht_op::DhtOp;
use crate::dht_op::DhtOpLight;
use crate::dht_op::IntegratedDhtOpsValue;
use crate::dht_op::IntegrationQueueValue;
use crate::dht_op::IntendedFor;
use crate::dht_op::ValidationStatus;
use crate::dht_op::spec_activity_basis;
use crate::dht_op::spec_op_hash;
use crate::dht_op::spec_store_entry_hash;
use crate::entry::Entry;
use crate::entry::Header;
use crate::kv_int::KvIntBuffer;
use crate::kv_int::apply_scratch;
use crate::kv_int::effective_get;
use crate::kv_int::lemma_apply_scratch_del;
use crate::kv_int::lemma_apply_scratch_put;
use crate::metadata::LinkMetaVal;
use crate::metadata::MetadataBuf;
use crate::spec_hash_entry;
use crate::spec_hash_header;

verus! {

/// Whether the store already holds everything `op`'s effect refers to.
/// Store and activity operations carry all they need; register operations
/// wait for their referenced content.
pub open spec fn deps_held(s: DbView, op: DhtOp) -> bool {
    match op {
        DhtOp::StoreElement(..) => true,
        DhtOp::StoreEntry(..) => true,
        DhtOp::RegisterAgentActivity(..) => true,
        DhtOp::RegisterReplacedBy(_, u, intended, _) => {
            &&& s.cas_headers.contains_key(u.replaces.0 as u128)
            &&& match intended {
                IntendedFor::Header => true,
                IntendedFor::Entry => s.cas_entries.contains_key(
                    s.cas_headers[u.replaces.0 as u128].data.spec_entry().0 as u128,
                ),
            }
        },
        DhtOp::RegisterDeletedBy(_, _, d) => s.cas_headers.contains_key(d.deletes.0 as u128),
        DhtOp::RegisterDeletedEntryHeader(_, _, d) => s.cas_headers.contains_key(
            d.deletes.0 as u128,
        ),
        DhtOp::RegisterAddLink(_, _, ale) => s.cas_entries.contains_key(ale.base.0 as u128),
        DhtOp::RegisterRemoveLink(_, _, rle) => {
            &&& s.cas_headers.contains_key(rle.removes.0 as u128)
            &&& s.meta_links.contains_key(rle.removes.0 as u128)
        },
    }
}

/// The routing basis an operation's integrated record is indexed under.
/// Meaningful when `deps_held(s, op)`: the replaced-entry and deleted-entry
/// cases read the original header from the store.
pub open spec fn op_basis(s: DbView, op: DhtOp) -> u64 {
    match op {
        DhtOp::StoreElement(_, h, _) => spec_hash_header(h),
        DhtOp::StoreEntry(_, _, b) => spec_store_entry_hash(b),
        DhtOp::RegisterAgentActivity(_, h) => spec_activity_basis(h),
        DhtOp::RegisterReplacedBy(_, u, intended, _) => match intended {
            IntendedFor::Header => u.replaces.0,
            IntendedFor::Entry => s.cas_headers[u.replaces.0 as u128].data.spec_entry().0,
        },
        DhtOp::RegisterDeletedBy(_, _, d) => d.deletes.0,
        DhtOp::RegisterDeletedEntryHeader(_, _, d) => s.cas_headers[d.deletes.0 as u128].data.spec_entry().0,
        DhtOp::RegisterAddLink(_, _, ale) => ale.base.0,
        DhtOp::RegisterRemoveLink(_, _, rle) => rle.base.0,
    }
}

/// The operation with its payload stripped to dependency hashes.
pub open spec fn op_light(s: DbView, op: DhtOp) -> DhtOpLight {
    let hh = Address(spec_hash_header(op.spec_header()));
    match op {
        DhtOp::StoreElement(_, _, e) => DhtOpLight::StoreElement(
            hh,
            match e {
                Some(en) => Some(Address(spec_hash_entry(en))),
                None => None,
            },
        ),
        DhtOp::StoreEntry(_, _, b) => DhtOpLight::StoreEntry(
            hh,
            Address(spec_store_entry_hash(b)),
        ),
        DhtOp::RegisterAgentActivity(_, _) => DhtOpLight::RegisterAgentActivity(hh),
        DhtOp::RegisterReplacedBy(..) => DhtOpLight::RegisterReplacedBy(
            hh,
            Address(op_basis(s, op)),
        ),
        DhtOp::RegisterDeletedBy(..) => DhtOpLight::RegisterDeletedBy(
            hh,
            Address(op_basis(s, op)),
        ),
        DhtOp::RegisterDeletedEntryHeader(..) => DhtOpLight::RegisterDeletedEntryHeader(
            hh,
            Address(op_basis(s, op)),
        ),
        DhtOp::RegisterAddLink(..) => DhtOpLight::RegisterAddLink(hh, Address(op_basis(s, op))),
        DhtOp::RegisterRemoveLink(..) => DhtOpLight::RegisterRemoveLink(
            hh,
            Address(op_basis(s, op)),
        ),
    }
}

/// The record the integrated store keeps for an operation integrated out of
/// state `s` with status `st`.
pub open spec fn integrated_value(s: DbView, op: DhtOp, st: ValidationStatus) -> IntegratedDhtOpsValue {
    IntegratedDhtOpsValue { validation_status: st, basis: Address(op_basis(s, op)), op: op_light(s, op) }
}

/// The effect of one valid operation on the store and metadata, by variant.
/// Meaningful when `deps_held(s, op)`.
pub open spec fn apply_op(s: DbView, op: DhtOp) -> DbView {
    match op {
        DhtOp::StoreElement(sig, h, e) => DbView {
            cas_headers: s.cas_headers.insert(
                spec_hash_header(h) as u128,
                Signed { data: h, signature: sig },
            ),
            cas_entries: match e {
                Some(en) => s.cas_entries.insert(spec_hash_entry(en) as u128, en),
                None => s.cas_entries,
            },
            ..s
        },
        DhtOp::StoreEntry(sig, neh, b) => DbView {
            cas_headers: s.cas_headers.insert(
                spec_hash_header(neh.spec_header()) as u128,
                Signed { data: neh.spec_header(), signature: sig },
            ),
            cas_entries: s.cas_entries.insert(
                spec_store_entry_hash(b) as u128,
                Entry::BigE(b),
            ),
            meta_headers_by_entry: s.meta_headers_by_entry.insert(
                spec_pack(spec_store_entry_hash(b), spec_hash_header(neh.spec_header())),
                (spec_store_entry_hash(b), spec_hash_header(neh.spec_header())),
            ),
            ..s
        },
        DhtOp::RegisterAgentActivity(_, h) => DbView {
            meta_activity: s.meta_activity.insert(
                spec_pack(spec_activity_basis(h), spec_hash_header(h)),
                (spec_activity_basis(h), spec_hash_header(h)),
            ),
            ..s
        },
        DhtOp::RegisterReplacedBy(_, u, _, _) => DbView {
            meta_updates: s.meta_updates.insert(
                spec_pack(op_basis(s, op), spec_hash_header(Header::Update(u))),
                (op_basis(s, op), spec_hash_header(Header::Update(u))),
            ),
            ..s
        },
        DhtOp::RegisterDeletedBy(_, n, _) => DbView {
            meta_deletes: s.meta_deletes.insert(
                spec_pack(op_basis(s, op), spec_hash_header(Header::Delete(n))),
                (op_basis(s, op), spec_hash_header(Header::Delete(n))),
            ),
            ..s
        },
        DhtOp::RegisterDeletedEntryHeader(_, n, _) => DbView {
            meta_deletes: s.meta_deletes.insert(
                spec_pack(op_basis(s, op), spec_hash_header(Header::Delete(n))),
                (op_basis(s, op), spec_hash_header(Header::Delete(n))),
            ),
            ..s
        },
        DhtOp::RegisterAddLink(_, n, ale) => DbView {
            meta_links: s.meta_links.insert(
                spec_hash_header(Header::AddLink(n)) as u128,
                LinkMetaVal {
                    link_add_hash: Address(spec_hash_header(Header::AddLink(n))),
                    target: ale.target,
                    zome_id: ale.data.zome_id,
                    tag: ale.data.tag,
                    base: ale.base,
                },
            ),
            ..s
        },
        DhtOp::RegisterRemoveLink(_, _, rle) => DbView {
            meta_links: s.meta_links.remove(rle.removes.0 as u128),
            ..s
        },
    }
}

/// One queue entry's integration step. If a dependency is missing, the
/// state is untouched and the entry stays queued. Otherwise the effects of
/// a `Valid` operation are applied (no effects for the other statuses), the
/// entry leaves the queue, and the integrated store records the operation
/// under its hash.
pub open spec fn integrate_step(s: DbView, qk: u128, qv: IntegrationQueueValue) -> DbView {
    if deps_held(s, qv.op) {
        let effected = if qv.validation_status is Valid {
            apply_op(s, qv.op)
        } else {
            s
        };
        DbView {
            integration_queue: effected.integration_queue.remove(qk),
            integrated_dht_ops: effected.integrated_dht_ops.insert(
                spec_op_hash(qv.op) as u128,
                integrated_value(s, qv.op, qv.validation_status),
            ),
            ..effected
        }
    } else {
        s
    }
}

/// Draining a batch: the integration steps of its entries, in order.
pub open spec fn drain_fold(s: DbView, entries: Seq<(u128, IntegrationQueueValue)>) -> DbView
    decreases entries.len(),
{
    if entries.len() == 0 {
        s
    } else {
        drain_fold(integrate_step(s, entries.first().0, entries.first().1), entries.drop_first())
    }
}

/// How many entries of the batch integrate (their dependencies held when
/// their turn came).
pub open spec fn drain_count(s: DbView, entries: Seq<(u128, IntegrationQueueValue)>) -> nat
    decreases entries.len(),
{
    if entries.len() == 0 {
        0
    } else {
        (if deps_held(s, entries.first().1.op) {
            1nat
        } else {
            0nat
        }) + drain_count(
            integrate_step(s, entries.first().0, entries.first().1),
            entries.drop_first(),
        )
    }
}

/// The workspace of one integration run: a buffer over every table the
/// workflow touches. All mutation stays in the buffers until the single
/// flush that ends the run.
pub struct IntegrateDhtOpsWorkspace {
    pub integration_queue: KvIntBuffer<IntegrationQueueValue>,
    pub integrated_dht_ops: KvIntBuffer<IntegratedDhtOpsValue>,
    pub cas: CasBuf,
    pub meta: MetadataBuf,
}

impl IntegrateDhtOpsWorkspace {
    pub open spec fn wf(self) -> bool {
        &&& self.integration_queue.wf()
        &&& self.integrated_dht_ops.wf()
        &&& self.cas.wf()
        &&& self.meta.wf()
    }

    /// The whole environment as this workspace sees it: every buffer's
    /// overlay applied to the persisted view `s`.
    pub open spec fn effective(self, s: DbView) -> DbView {
        DbView {
            integration_queue: apply_scratch(self.integration_queue@, s.integration_queue),
            integrated_dht_ops: apply_scratch(self.integrated_dht_ops@, s.integrated_dht_ops),
            cas_headers: apply_scratch(self.cas.headers@, s.cas_headers),
            cas_entries: apply_scratch(self.cas.entries@, s.cas_entries),
            meta_headers_by_entry: apply_scratch(
                self.meta.headers_by_entry@,
                s.meta_headers_by_entry,
            ),
            meta_activity: apply_scratch(self.meta.activity@, s.meta_activity),
            meta_updates: apply_scratch(self.meta.updates@, s.meta_updates),
            meta_deletes: apply_scratch(self.meta.deletes@, s.meta_deletes),
            meta_links: apply_scratch(self.meta.links@, s.meta_links),
        }
    }

    /// No write buffered yet.
    pub open spec fn is_fresh(self) -> bool {
        &&& self.integration_queue@ == Map::<u128, Option<IntegrationQueueValue>>::empty()
        &&& self.integrated_dht_ops@ == Map::<u128, Option<IntegratedDhtOpsValue>>::empty()
        &&& self.cas.headers@ == Map::<u128, Option<Signed<Header>>>::empty()
        &&& self.cas.entries@ == Map::<u128, Option<Entry>>::empty()
        &&& self.meta.headers_by_entry@ == Map::<u128, Option<(u64, u64)>>::empty()
        &&& self.meta.activity@ == Map::<u128, Option<(u64, u64)>>::empty()
        &&& self.meta.updates@ == Map::<u128, Option<(u64, u64)>>::empty()
        &&& self.meta.deletes@ == Map::<u128, Option<(u64, u64)>>::empty()
        &&& self.meta.links@ == Map::<u128, Option<LinkMetaVal>>::empty()
    }

    /// A workspace with empty buffers over the environment.
    pub fn new() -> (r: Self)
        ensures
            r.wf(),
            r.is_fresh(),
    {
        IntegrateDhtOpsWorkspace {
            integration_queue: KvIntBuffer::new(),
            integrated_dht_ops: KvIntBuffer::new(),
            cas: CasBuf::new(),
            meta: MetadataBuf::new(),
        }
    }

    /// Flush every buffer into the staged state of the write transaction.
    /// Consumes the workspace: a workspace flushes at most once.
    pub fn flush_to_txn(self, txn: &mut WriteTxn)
        requires
            self.wf(),
            old(txn).staged.wf(),
        ensures
            final(txn).staged.wf(),
            final(txn).staged@ == self.effective(old(txn).staged@),
    {
        let IntegrateDhtOpsWorkspace { integration_queue, integrated_dht_ops, cas, meta } = self;
        let CasBuf { headers, entries } = cas;
        let MetadataBuf { headers_by_entry, activity, updates, deletes, links } = meta;
        integration_queue.flush_to_txn(&mut txn.staged.integration_queue);
        integrated_dht_ops.flush_to_txn(&mut txn.staged.integrated_dht_ops);
        headers.flush_to_txn(&mut txn.staged.cas_headers);
        entries.flush_to_txn(&mut txn.staged.cas_entries);
        headers_by_entry.flush_to_txn(&mut txn.staged.meta_headers_by_entry);
        activity.flush_to_txn(&mut txn.staged.meta_activity);
        updates.flush_to_txn(&mut txn.staged.meta_updates);
        deletes.flush_to_txn(&mut txn.staged.meta_deletes);
        links.flush_to_txn(&mut txn.staged.meta_links);
        proof {
            assert(final(txn).staged@ =~= self.effective(old(txn).staged@));
        }
    }
}

/// A fresh workspace changes nothing: its effective view is the persisted
/// view itself.
pub proof fn lemma_fresh_effective(ws: IntegrateDhtOpsWorkspace, s: DbView)
    requires
        ws.is_fresh(),
    ensures
        ws.effective(s) == s,
{
    assert(apply_scratch(ws.integration_queue@, s.integration_queue) =~= s.integration_queue);
    assert(apply_scratch(ws.integrated_dht_ops@, s.integrated_dht_ops) =~= s.integrated_dht_ops);
    assert(apply_scratch(ws.cas.headers@, s.cas_headers) =~= s.cas_headers);
    assert(apply_scratch(ws.cas.entries@, s.cas_entries) =~= s.cas_entries);
    assert(apply_scratch(ws.meta.headers_by_entry@, s.meta_headers_by_entry)
        =~= s.meta_headers_by_entry);
    assert(apply_scratch(ws.meta.activity@, s.meta_activity) =~= s.meta_activity);
    assert(apply_scratch(ws.meta.updates@, s.meta_updates) =~= s.meta_updates);
    assert(apply_scratch(ws.meta.deletes@, s.meta_deletes) =~= s.meta_deletes);
    assert(apply_scratch(ws.meta.links@, s.meta_links) =~= s.meta_links);
    assert(ws.effective(s) =~= s);
}


/// What a buffered read answers is exactly what the flushed map would hold.
pub proof fn lemma_effective_lookup<V>(sc: Map<u128, Option<V>>, m: Map<u128, V>, k: u128)
    ensures
        apply_scratch(sc, m).contains_key(k) <==> effective_get(sc, m, k) is Some,
        effective_get(sc, m, k) matches Some(v) ==> apply_scratch(sc, m)[k] == v,
{
}

/// Integrate one queue entry against the workspace's effective view: check
/// the operation's dependencies; when they hold, apply the effects of a
/// `Valid` operation to the buffers, dequeue the entry and record the
/// operation in the integrated store. When a dependency is missing, change
/// nothing: the entry stays queued. Returns whether the entry integrated.
pub fn integrate_single_dht_op(
    ws: &mut IntegrateDhtOpsWorkspace,
    db: &DbState,
    qk: u128,
    qv: IntegrationQueueValue,
) -> (r: bool)
    requires
        old(ws).wf(),
        db.wf(),
    ensures
        final(ws).wf(),
        final(ws).effective(db@) == integrate_step(old(ws).effective(db@), qk, qv),
        r == deps_held(old(ws).effective(db@), qv.op),
{
    let ghost s = old(ws).effective(db@);
    let op = qv.op;
    let status_valid = match qv.validation_status {
        ValidationStatus::Valid => true,
        ValidationStatus::Rejected => false,
        ValidationStatus::Abandoned => false,
    };
    let basis: Address;
    let light: DhtOpLight;
    match op {
        DhtOp::StoreElement(sig, header, entry_opt) => {
            let hh = crate::hash_header(&header);
            if status_valid {
                ws.cas.put(Signed { data: header, signature: sig }, entry_opt);
                proof {
                    lemma_apply_scratch_put(
                        old(ws).cas.headers@,
                        db@.cas_headers,
                        spec_hash_header(header) as u128,
                        Signed { data: header, signature: sig },
                    );
                    match entry_opt {
                        Some(en) => {
                            lemma_apply_scratch_put(
                                old(ws).cas.entries@,
                                db@.cas_entries,
                                spec_hash_entry(en) as u128,
                                en,
                            );
                        },
                        None => {},
                    }
                    assert(ws.effective(db@) =~= apply_op(s, op));
                }
            }
            let light_entry = match &entry_opt {
                Some(en) => Some(crate::hash_entry(en)),
                None => None,
            };
            basis = hh;
            light = DhtOpLight::StoreElement(hh, light_entry);
        },
        DhtOp::StoreEntry(sig, neh, b) => {
            let header = neh.into_header();
            let hh = crate::hash_header(&header);
            let e = Entry::BigE(b);
            let eh = crate::hash_entry(&e);
            if status_valid {
                ws.cas.put(Signed { data: header, signature: sig }, Some(e));
                ws.meta.register_header(eh, hh);
                proof {
                    lemma_apply_scratch_put(
                        old(ws).cas.headers@,
                        db@.cas_headers,
                        spec_hash_header(header) as u128,
                        Signed { data: header, signature: sig },
                    );
                    lemma_apply_scratch_put(
                        old(ws).cas.entries@,
                        db@.cas_entries,
                        spec_hash_entry(e) as u128,
                        e,
                    );
                    lemma_apply_scratch_put(
                        old(ws).meta.headers_by_entry@,
                        db@.meta_headers_by_entry,
                        spec_pack(eh.0, hh.0),
                        (eh.0, hh.0),
                    );
                    assert(ws.effective(db@) =~= apply_op(s, op));
                }
            }
            basis = eh;
            light = DhtOpLight::StoreEntry(hh, eh);
        },
        DhtOp::RegisterAgentActivity(_sig, header) => {
            let hh = crate::hash_header(&header);
            let ab = crate::hash_public_key(header.author());
            if status_valid {
                ws.meta.register_activity(ab, hh);
                proof {
                    lemma_apply_scratch_put(
                        old(ws).meta.activity@,
                        db@.meta_activity,
                        spec_pack(ab.0, hh.0),
                        (ab.0, hh.0),
                    );
                    assert(ws.effective(db@) =~= apply_op(s, op));
                }
            }
            basis = ab;
            light = DhtOpLight::RegisterAgentActivity(hh);
        },
        DhtOp::RegisterReplacedBy(_sig, u, intended, _new_entry) => {
            let orig = ws.cas.get_header(db, &u.replaces);
            proof {
                lemma_effective_lookup(ws.cas.headers@, db@.cas_headers, u.replaces.0 as u128);
            }
            match orig {
                None => {
                    proof {
                        assert(!deps_held(s, qv.op));
                    }
                    return false;
                },
                Some(orig_sh) => {
                    let b = match intended {
                        IntendedFor::Header => u.replaces,
                        IntendedFor::Entry => {
                            let oe = orig_sh.data.entry_address();
                            let present = ws.cas.get_entry(db, &oe);
                            proof {
                                lemma_effective_lookup(
                                    ws.cas.entries@,
                                    db@.cas_entries,
                                    oe.0 as u128,
                                );
                            }
                            match present {
                                None => {
                                    proof {
                                        assert(!deps_held(s, qv.op));
                                    }
                                    return false;
                                },
                                Some(_) => oe,
                            }
                        },
                    };
                    proof {
                        assert(deps_held(s, qv.op));
                        assert(b.0 == op_basis(s, qv.op));
                    }
                    let uh = crate::hash_header(&Header::Update(u));
                    if status_valid {
                        ws.meta.register_update(b, uh);
                        proof {
                            lemma_apply_scratch_put(
                                old(ws).meta.updates@,
                                db@.meta_updates,
                                spec_pack(b.0, uh.0),
                                (b.0, uh.0),
                            );
                            assert(ws.effective(db@) =~= apply_op(s, op));
                        }
                    }
                    basis = b;
                    light = DhtOpLight::RegisterReplacedBy(uh, b);
                },
            }
        },
        DhtOp::RegisterDeletedBy(_sig, n, d) => {
            let orig = ws.cas.get_header(db, &d.deletes);
            proof {
                lemma_effective_lookup(ws.cas.headers@, db@.cas_headers, d.deletes.0 as u128);
            }
            match orig {
                None => {
                    proof {
                        assert(!deps_held(s, qv.op));
                    }
                    return false;
                },
                Some(_) => {},
            }
            let dh = crate::hash_header(&Header::Delete(n));
            if status_valid {
                ws.meta.register_delete(d.deletes, dh);
                proof {
                    lemma_apply_scratch_put(
                        old(ws).meta.deletes@,
                        db@.meta_deletes,
                        spec_pack(d.deletes.0, dh.0),
                        (d.deletes.0, dh.0),
                    );
                    assert(ws.effective(db@) =~= apply_op(s, op));
                }
            }
            basis = d.deletes;
            light = DhtOpLight::RegisterDeletedBy(dh, d.deletes);
        },
        DhtOp::RegisterDeletedEntryHeader(_sig, n, d) => {
            let orig = ws.cas.get_header(db, &d.deletes);
            proof {
                lemma_effective_lookup(ws.cas.headers@, db@.cas_headers, d.deletes.0 as u128);
            }
            match orig {
                None => {
                    proof {
                        assert(!deps_held(s, qv.op));
                    }
                    return false;
                },
                Some(orig_sh) => {
                    let b = orig_sh.data.entry_address();
                    proof {
                        assert(deps_held(s, qv.op));
                        assert(b.0 == op_basis(s, qv.op));
                    }
                    let dh = crate::hash_header(&Header::Delete(n));
                    if status_valid {
                        ws.meta.register_delete(b, dh);
                        proof {
                            lemma_apply_scratch_put(
                                old(ws).meta.deletes@,
                                db@.meta_deletes,
                                spec_pack(b.0, dh.0),
                                (b.0, dh.0),
                            );
                            assert(ws.effective(db@) =~= apply_op(s, op));
                        }
                    }
                    basis = b;
                    light = DhtOpLight::RegisterDeletedEntryHeader(dh, b);
                },
            }
        },
        DhtOp::RegisterAddLink(_sig, n, ale) => {
            let present = ws.cas.get_entry(db, &ale.base);
            proof {
                lemma_effective_lookup(ws.cas.entries@, db@.cas_entries, ale.base.0 as u128);
            }
            match present {
                None => {
                    proof {
                        assert(!deps_held(s, qv.op));
                    }
                    return false;
                },
                Some(_) => {},
            }
            let lh = crate::hash_header(&Header::AddLink(n));
            if status_valid {
                ws.meta.add_link(n, ale);
                proof {
                    lemma_apply_scratch_put(
                        old(ws).meta.links@,
                        db@.meta_links,
                        spec_hash_header(Header::AddLink(n)) as u128,
                        MetadataBuf::spec_link_val(n, ale),
                    );
                    assert(ws.effective(db@) =~= apply_op(s, op));
                }
            }
            basis = ale.base;
            light = DhtOpLight::RegisterAddLink(lh, ale.base);
        },
        DhtOp::RegisterRemoveLink(_sig, n, rle) => {
            let orig = ws.cas.get_header(db, &rle.removes);
            proof {
                lemma_effective_lookup(ws.cas.headers@, db@.cas_headers, rle.removes.0 as u128);
            }
            match orig {
                None => {
                    proof {
                        assert(!deps_held(s, qv.op));
                    }
                    return false;
                },
                Some(_) => {},
            }
            let record = ws.meta.links.get(&db.meta_links, rle.removes.0 as u128);
            proof {
                lemma_effective_lookup(ws.meta.links@, db@.meta_links, rle.removes.0 as u128);
            }
            match record {
                None => {
                    proof {
                        assert(!deps_held(s, qv.op));
                    }
                    return false;
                },
                Some(_) => {},
            }
            let rh = crate::hash_header(&Header::RemoveLink(n));
            if status_valid {
                ws.meta.remove_link(rle.removes);
                proof {
                    lemma_apply_scratch_del(
                        old(ws).meta.links@,
                        db@.meta_links,
                        rle.removes.0 as u128,
                    );
                    assert(ws.effective(db@) =~= apply_op(s, op));
                }
            }
            basis = rle.base;
            light = DhtOpLight::RegisterRemoveLink(rh, rle.base);
        },
    }
    proof {
        assert(deps_held(s, qv.op));
        assert(basis.0 == op_basis(s, qv.op));
        assert(light == op_light(s, qv.op));
        if status_valid {
            assert(ws.effective(db@) == apply_op(s, qv.op));
        } else {
            assert(ws.effective(db@) == s);
        }
    }
    let ghost mid = ws.effective(db@);
    let oph = crate::dht_op::dht_op_hash(&op);
    ws.integration_queue.delete(qk);
    let value = IntegratedDhtOpsValue {
        validation_status: qv.validation_status,
        basis,
        op: light,
    };
    ws.integrated_dht_ops.put(oph.0 as u128, value);
    proof {
        lemma_apply_scratch_del(old(ws).integration_queue@, db@.integration_queue, qk);
        lemma_apply_scratch_put(
            old(ws).integrated_dht_ops@,
            db@.integrated_dht_ops,
            spec_op_hash(qv.op) as u128,
            value,
        );
        assert(ws.effective(db@) =~= integrate_step(s, qk, qv));
    }
    true
}


/// One integration run: drain every persisted queue entry in key order,
/// integrate those whose dependencies hold, and commit all effects — store,
/// metadata, dequeues and integrated records — under one write transaction.
/// Returns how many operations integrated; a caller signals its downstream
/// trigger when the count is positive.
#[verifier::loop_isolation(false)]
pub fn integrate_dht_ops_workflow(
    workspace: IntegrateDhtOpsWorkspace,
    db: &mut DbState,
) -> (r: usize)
    requires
        workspace.wf(),
        workspace.is_fresh(),
        old(db).wf(),
    ensures
        final(db).wf(),
        final(db)@ == drain_fold(old(db)@, old(db).integration_queue.spec_rows()),
        r == drain_count(old(db)@, old(db).integration_queue.spec_rows()),
        crate::db::view_inv(old(db)@) ==> crate::db::view_inv(final(db)@),
{
    let mut ws = workspace;
    let ghost all = old(db).integration_queue.spec_rows();
    proof {
        lemma_fresh_effective(ws, db@);
        assert(all.skip(0) =~= all);
    }
    let entries = ws.integration_queue.iter_raw(&db.integration_queue);
    let n = entries.len();
    let mut i: usize = 0;
    let mut count: usize = 0;
    while i < n
        invariant
            ws.wf(),
            entries@ == all,
            n == all.len(),
            i <= n,
            count <= i,
            drain_fold(old(db)@, all) == drain_fold(ws.effective(db@), all.skip(i as int)),
            drain_count(old(db)@, all) == count + drain_count(
                ws.effective(db@),
                all.skip(i as int),
            ),
        decreases n - i,
    {
        let e = entries[i];
        let ghost pre = ws.effective(db@);
        let ghost rest = all.skip(i as int);
        let ok = integrate_single_dht_op(&mut ws, db, e.0, e.1);
        if ok {
            count = count + 1;
        }
        proof {
            assert(rest.len() > 0);
            assert(rest.first() == all[i as int]);
            assert(rest.drop_first() =~= all.skip(i as int + 1));
            assert(drain_fold(pre, rest) == drain_fold(
                integrate_step(pre, e.0, e.1),
                all.skip(i as int + 1),
            ));
            assert(drain_count(pre, rest) == (if deps_held(pre, e.1.op) {
                1nat
            } else {
                0nat
            }) + drain_count(integrate_step(pre, e.0, e.1), all.skip(i as int + 1)));
        }
        i = i + 1;
    }
    proof {
        assert(all.skip(n as int) =~= Seq::<(u128, IntegrationQueueValue)>::empty());
        assert(drain_fold(old(db)@, all) == ws.effective(db@));
        assert(drain_count(old(db)@, all) == count);
    }
    let ghost total = ws.effective(db@);
    proof {
        if crate::db::view_inv(old(db)@) {
            crate::laws::lemma_drain_preserves_inv(old(db)@, all);
        }
    }
    let mut txn = WriteTxn::begin(db);
    ws.flush_to_txn(&mut txn);
    txn.commit(db);
    proof {
        assert(db@ == total);
    }
    count
}


/// Whether some queue entry already carries an operation with hash `h`.
pub open spec fn queue_has_op(q: Map<u128, IntegrationQueueValue>, h: u64) -> bool {
    exists|k: u128| #[trigger] q.contains_key(k) && spec_op_hash(q[k].op) == h
}

/// No two queue entries carry one operation hash.
pub open spec fn queue_unique(q: Map<u128, IntegrationQueueValue>) -> bool {
    forall|k1: u128, k2: u128|
        #![auto]
        q.contains_key(k1) && q.contains_key(k2) && spec_op_hash(q[k1].op) == spec_op_hash(
            q[k2].op,
        ) ==> k1 == k2
}

/// Queue an operation for integration at time `ts` — unless the queue, as
/// this workspace sees it, already holds the operation, or the integrated
/// store already records it: an operation is never queued twice. Returns
/// whether the operation was queued.
#[verifier::loop_isolation(false)]
pub fn queue_dht_op(
    ws: &mut IntegrateDhtOpsWorkspace,
    db: &DbState,
    ts: crate::Timestamp,
    status: ValidationStatus,
    op: DhtOp,
) -> (r: bool)
    requires
        old(ws).wf(),
        db.wf(),
    ensures
        final(ws).wf(),
        final(ws).integrated_dht_ops@ == old(ws).integrated_dht_ops@,
        final(ws).cas.headers@ == old(ws).cas.headers@,
        final(ws).cas.entries@ == old(ws).cas.entries@,
        final(ws).meta.headers_by_entry@ == old(ws).meta.headers_by_entry@,
        final(ws).meta.activity@ == old(ws).meta.activity@,
        final(ws).meta.updates@ == old(ws).meta.updates@,
        final(ws).meta.deletes@ == old(ws).meta.deletes@,
        final(ws).meta.links@ == old(ws).meta.links@,
        ({
            let q = apply_scratch(old(ws).integration_queue@, db@.integration_queue);
            let integrated = apply_scratch(old(ws).integrated_dht_ops@, db@.integrated_dht_ops);
            let oph = spec_op_hash(op);
            if queue_has_op(q, oph) || integrated.contains_key(oph as u128) {
                &&& r == false
                &&& final(ws).integration_queue@ == old(ws).integration_queue@
            } else {
                &&& r == true
                &&& final(ws).integration_queue@ == old(ws).integration_queue@.insert(
                    crate::dht_op::spec_queue_key(ts, oph),
                    Some(IntegrationQueueValue { validation_status: status, op }),
                )
            }
        }),
{
    let ghost q = apply_scratch(old(ws).integration_queue@, db@.integration_queue);
    let oph = crate::dht_op::dht_op_hash(&op);
    let already = ws.integrated_dht_ops.get(&db.integrated_dht_ops, oph.0 as u128);
    proof {
        lemma_effective_lookup(ws.integrated_dht_ops@, db@.integrated_dht_ops, oph.0 as u128);
    }
    match already {
        Some(_) => {
            return false;
        },
        None => {},
    }
    let merged = ws.integration_queue.merged_rows(&db.integration_queue);
    let n = merged.len();
    let mut i: usize = 0;
    while i < n
        invariant
            n == merged@.len(),
            crate::table::keys_distinct(merged@),
            crate::table::kv_map(merged@) == q,
            i <= n,
            forall|j: int| 0 <= j < i ==> spec_op_hash((#[trigger] merged@[j]).1.op)
                != spec_op_hash(op),
        decreases n - i,
    {
        let row_hash = crate::dht_op::dht_op_hash(&merged[i].1.op);
        if row_hash.0 == oph.0 {
            proof {
                crate::table::lemma_kv_row(merged@, i as int);
                assert(q.contains_key(merged@[i as int].0));
                assert(spec_op_hash(q[merged@[i as int].0].op) == spec_op_hash(op));
                assert(queue_has_op(q, spec_op_hash(op)));
            }
            return false;
        }
        i = i + 1;
    }
    proof {
        assert(!queue_has_op(q, spec_op_hash(op))) by {
            if queue_has_op(q, spec_op_hash(op)) {
                let k = choose|k: u128| #[trigger] q.contains_key(k) && spec_op_hash(q[k].op)
                    == spec_op_hash(op);
                let j = choose|j: int|
                    0 <= j < merged@.len() && (#[trigger] merged@[j]).0 == k;
                crate::table::lemma_kv_row(merged@, j);
                assert(spec_op_hash(merged@[j].1.op) == spec_op_hash(op));
            }
        }
    }
    let qk = crate::dht_op::queue_key(ts, oph.0);
    ws.integration_queue.put(qk, IntegrationQueueValue { validation_status: status, op });
    true
}

} // verus!
