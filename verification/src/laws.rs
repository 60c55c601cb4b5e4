//! The laws of the integration layer, each proved once and for all inputs:
//! what one integration step stores, that a missing dependency writes
//! nothing, that integration is idempotent, and what the buffered store
//! promises around a flush.

use vstd::prelude::*;
use crate::Signature;
use crate::Signed;
use crate::db::DbView;
use crate::db::index_items;
use crate::db::links_inv;
use crate::db::spec_pack;
use crate::db::view_inv;
use crate::dht_op::DhtOp;
use crate::dht_op::IntegrationQueueValue;
use crate::dht_op::NewEntryHeader;
use crate::dht_op::spec_op_hash;
use crate::dht_op::spec_queue_key;
use crate::dht_op::spec_store_entry_hash;
use crate::dht_op::ValidationStatus;
use crate::entry::Entry;
use crate::entry::Header;
use crate::entry::NormalHeader;
use crate::entry::RemoveLinkEntry;
use crate::entry::UpdateHeader;
use crate::kv_int::apply_scratch;
use crate::kv_int::effective_get;
use crate::spec_hash_header;
use crate::workflow::deps_held;
use crate::workflow::integrate_step;
use crate::workflow::integrated_value;
use crate::workflow::op_basis;
use crate::workflow::queue_has_op;
use crate::workflow::queue_unique;

verus! {

/// A valid StoreElement operation that carries no entry stores exactly its
/// header: after its integration step the header store holds the signed
/// header under its hash, the entry store and every metadata index are
/// unchanged, the entry has left the queue, and the integrated store
/// records the operation.
pub proof fn lemma_store_element_header_only(
    s: DbView,
    qk: u128,
    qv: IntegrationQueueValue,
    sig: Signature,
    h: Header,
)
    requires
        qv.op == DhtOp::StoreElement(sig, h, Option::<Entry>::None),
        qv.validation_status is Valid,
    ensures
        ({
            let s2 = integrate_step(s, qk, qv);
            &&& s2.cas_headers == s.cas_headers.insert(
                spec_hash_header(h) as u128,
                Signed { data: h, signature: sig },
            )
            &&& s2.cas_entries == s.cas_entries
            &&& s2.meta_headers_by_entry == s.meta_headers_by_entry
            &&& s2.meta_activity == s.meta_activity
            &&& s2.meta_updates == s.meta_updates
            &&& s2.meta_deletes == s.meta_deletes
            &&& s2.meta_links == s.meta_links
            &&& s2.integration_queue == s.integration_queue.remove(qk)
            &&& s2.integrated_dht_ops == s.integrated_dht_ops.insert(
                spec_op_hash(qv.op) as u128,
                integrated_value(s, qv.op, qv.validation_status),
            )
        }),
{
}

/// A valid StoreEntry operation stores its header and entry, and indexes
/// the header's hash under the entry's hash.
pub proof fn lemma_store_entry(
    s: DbView,
    qk: u128,
    qv: IntegrationQueueValue,
    sig: Signature,
    neh: NewEntryHeader,
    b: crate::entry::BigEEntry,
)
    requires
        qv.op == DhtOp::StoreEntry(sig, neh, b),
        qv.validation_status is Valid,
    ensures
        ({
            let s2 = integrate_step(s, qk, qv);
            let hh = spec_hash_header(neh.spec_header());
            let eh = spec_store_entry_hash(b);
            &&& s2.cas_headers == s.cas_headers.insert(
                hh as u128,
                Signed { data: neh.spec_header(), signature: sig },
            )
            &&& s2.cas_entries == s.cas_entries.insert(eh as u128, Entry::BigE(b))
            &&& index_items(s2.meta_headers_by_entry, eh).contains(hh)
            &&& s2.integration_queue == s.integration_queue.remove(qk)
            &&& s2.integrated_dht_ops == s.integrated_dht_ops.insert(
                spec_op_hash(qv.op) as u128,
                integrated_value(s, qv.op, qv.validation_status),
            )
        }),
{
    let s2 = integrate_step(s, qk, qv);
    let hh = spec_hash_header(neh.spec_header());
    let eh = spec_store_entry_hash(b);
    assert(s2.meta_headers_by_entry.contains_key(spec_pack(eh, hh)));
    assert(s2.meta_headers_by_entry[spec_pack(eh, hh)] == (eh, hh));
    assert(index_items(s2.meta_headers_by_entry, eh).contains(hh));
}

/// An operation whose dependency is absent is never partially applied: its
/// integration step leaves the queue, the integrated store, the
/// content-addressed store and every metadata index exactly as they were.
pub proof fn lemma_missing_dependency_writes_nothing(s: DbView, qk: u128, qv: IntegrationQueueValue)
    requires
        !deps_held(s, qv.op),
    ensures
        integrate_step(s, qk, qv) == s,
{
}

/// Once the original header (and, for a replacement aimed at an entry, the
/// original entry) is present, a valid RegisterReplacedBy integrates:
/// the update is recorded under its basis in the updates index, the entry
/// leaves the queue, the operation is recorded, and the content-addressed
/// store is untouched.
pub proof fn lemma_replaced_by_integrates(
    s: DbView,
    qk: u128,
    qv: IntegrationQueueValue,
    sig: Signature,
    u: UpdateHeader,
    intended: crate::dht_op::IntendedFor,
    e: Option<crate::entry::BigEEntry>,
)
    requires
        qv.op == DhtOp::RegisterReplacedBy(sig, u, intended, e),
        qv.validation_status is Valid,
        deps_held(s, qv.op),
    ensures
        ({
            let s2 = integrate_step(s, qk, qv);
            let uh = spec_hash_header(Header::Update(u));
            let basis = op_basis(s, qv.op);
            &&& s2.meta_updates == s.meta_updates.insert(spec_pack(basis, uh), (basis, uh))
            &&& index_items(s2.meta_updates, basis).contains(uh)
            &&& s2.cas_headers == s.cas_headers
            &&& s2.cas_entries == s.cas_entries
            &&& s2.integration_queue == s.integration_queue.remove(qk)
            &&& s2.integrated_dht_ops == s.integrated_dht_ops.insert(
                spec_op_hash(qv.op) as u128,
                integrated_value(s, qv.op, qv.validation_status),
            )
        }),
{
    let s2 = integrate_step(s, qk, qv);
    let uh = spec_hash_header(Header::Update(u));
    let basis = op_basis(s, qv.op);
    assert(s2.meta_updates.contains_key(spec_pack(basis, uh)));
    assert(s2.meta_updates[spec_pack(basis, uh)] == (basis, uh));
    assert(index_items(s2.meta_updates, basis).contains(uh));
}

/// Integrating the same valid operation a second time is a no-op beyond
/// dequeuing: the second step computes an identical integrated record, and
/// every store and index is exactly as one integration left it. Holds for
/// every variant except RegisterRemoveLink, whose first integration
/// consumes the link record it depends on, so a second copy stays queued.
pub proof fn lemma_integration_idempotent(
    s: DbView,
    qk1: u128,
    qk2: u128,
    qv: IntegrationQueueValue,
)
    requires
        deps_held(s, qv.op),
        qv.validation_status is Valid,
        !(qv.op is RegisterRemoveLink),
    ensures
        ({
            let s1 = integrate_step(s, qk1, qv);
            let s2 = integrate_step(s1, qk2, qv);
            &&& deps_held(s1, qv.op)
            &&& integrated_value(s1, qv.op, qv.validation_status) == integrated_value(
                s,
                qv.op,
                qv.validation_status,
            )
            &&& s2.cas_headers == s1.cas_headers
            &&& s2.cas_entries == s1.cas_entries
            &&& s2.meta_headers_by_entry == s1.meta_headers_by_entry
            &&& s2.meta_activity == s1.meta_activity
            &&& s2.meta_updates == s1.meta_updates
            &&& s2.meta_deletes == s1.meta_deletes
            &&& s2.meta_links == s1.meta_links
            &&& s2.integrated_dht_ops == s1.integrated_dht_ops
            &&& s2.integration_queue == s1.integration_queue.remove(qk2)
        }),
{
    let s1 = integrate_step(s, qk1, qv);
    let s2 = integrate_step(s1, qk2, qv);
    match qv.op {
        DhtOp::StoreElement(sig, h, e) => {
            assert(s2.cas_headers =~= s1.cas_headers);
            match e {
                Some(en) => {
                    assert(s2.cas_entries =~= s1.cas_entries);
                },
                None => {},
            }
            assert(s2.integrated_dht_ops =~= s1.integrated_dht_ops);
        },
        DhtOp::StoreEntry(..) => {
            assert(s2.cas_headers =~= s1.cas_headers);
            assert(s2.cas_entries =~= s1.cas_entries);
            assert(s2.meta_headers_by_entry =~= s1.meta_headers_by_entry);
            assert(s2.integrated_dht_ops =~= s1.integrated_dht_ops);
        },
        DhtOp::RegisterAgentActivity(..) => {
            assert(s2.meta_activity =~= s1.meta_activity);
            assert(s2.integrated_dht_ops =~= s1.integrated_dht_ops);
        },
        DhtOp::RegisterReplacedBy(..) => {
            assert(s2.meta_updates =~= s1.meta_updates);
            assert(s2.integrated_dht_ops =~= s1.integrated_dht_ops);
        },
        DhtOp::RegisterDeletedBy(..) => {
            assert(s2.meta_deletes =~= s1.meta_deletes);
            assert(s2.integrated_dht_ops =~= s1.integrated_dht_ops);
        },
        DhtOp::RegisterDeletedEntryHeader(..) => {
            assert(s2.meta_deletes =~= s1.meta_deletes);
            assert(s2.integrated_dht_ops =~= s1.integrated_dht_ops);
        },
        DhtOp::RegisterAddLink(..) => {
            assert(s2.meta_links =~= s1.meta_links);
            assert(s2.integrated_dht_ops =~= s1.integrated_dht_ops);
        },
        DhtOp::RegisterRemoveLink(..) => {},
    }
}

/// A valid RegisterRemoveLink with no matching link record stays queued and
/// writes nothing; with its add-link header stored and the record present,
/// its integration step removes exactly the one record the add-link header
/// created — under the link-store invariant, every surviving record belongs
/// to a different add-link header.
pub proof fn lemma_remove_link(
    s: DbView,
    qk: u128,
    qv: IntegrationQueueValue,
    sig: Signature,
    n: NormalHeader,
    rle: RemoveLinkEntry,
)
    requires
        qv.op == DhtOp::RegisterRemoveLink(sig, n, rle),
        qv.validation_status is Valid,
    ensures
        !deps_held(s, qv.op) ==> integrate_step(s, qk, qv) == s,
        deps_held(s, qv.op) ==> ({
            let s2 = integrate_step(s, qk, qv);
            &&& s2.meta_links == s.meta_links.remove(rle.removes.0 as u128)
            &&& !s2.meta_links.contains_key(rle.removes.0 as u128)
            &&& forall|k: u128|
                k != rle.removes.0 as u128 && s.meta_links.contains_key(k)
                    ==> #[trigger] s2.meta_links.contains_key(k) && s2.meta_links[k]
                    == s.meta_links[k]
            &&& links_inv(s.meta_links) ==> forall|k: u128|
                #[trigger] s2.meta_links.contains_key(k) ==> s2.meta_links[k].link_add_hash
                    != rle.removes
        }),
{
    if deps_held(s, qv.op) {
        let s2 = integrate_step(s, qk, qv);
        if links_inv(s.meta_links) {
            assert forall|k: u128| #[trigger] s2.meta_links.contains_key(
                k,
            ) implies s2.meta_links[k].link_add_hash != rle.removes by {
                assert(s.meta_links.contains_key(k));
                assert(k == s.meta_links[k].link_add_hash.0 as u128);
            }
        }
    }
}

/// The buffered store around one key: a get after a put answers the put
/// before any flush; after the flush, the persisted table holds the value,
/// and a fresh buffer over it answers the same value.
pub proof fn lemma_buffer_put_get_flush<V>(
    sc: Map<u128, Option<V>>,
    m: Map<u128, V>,
    k: u128,
    v: V,
)
    ensures
        effective_get(sc.insert(k, Some(v)), m, k) == Some(v),
        apply_scratch(sc.insert(k, Some(v)), m).contains_key(k),
        apply_scratch(sc.insert(k, Some(v)), m)[k] == v,
        effective_get(
            Map::<u128, Option<V>>::empty(),
            apply_scratch(sc.insert(k, Some(v)), m),
            k,
        ) == Some(v),
{
}

/// Queueing an operation that is not yet queued keeps the queue free of
/// duplicates: no two entries ever carry one operation hash.
pub proof fn lemma_queue_stays_unique(
    q: Map<u128, IntegrationQueueValue>,
    ts: crate::Timestamp,
    status: ValidationStatus,
    op: DhtOp,
)
    requires
        queue_unique(q),
        !queue_has_op(q, spec_op_hash(op)),
    ensures
        queue_unique(
            q.insert(
                spec_queue_key(ts, spec_op_hash(op)),
                IntegrationQueueValue { validation_status: status, op },
            ),
        ),
{
    let nk = spec_queue_key(ts, spec_op_hash(op));
    let q2 = q.insert(nk, IntegrationQueueValue { validation_status: status, op });
    assert forall|k1: u128, k2: u128|
        #![auto]
        q2.contains_key(k1) && q2.contains_key(k2) && spec_op_hash(q2[k1].op) == spec_op_hash(
            q2[k2].op,
        ) implies k1 == k2 by {
        if k1 != nk && k2 != nk {
            assert(q.contains_key(k1) && q.contains_key(k2));
        } else if k1 == nk && k2 != nk {
            assert(q.contains_key(k2));
            assert(spec_op_hash(q[k2].op) == spec_op_hash(op));
        } else if k2 == nk && k1 != nk {
            assert(q.contains_key(k1));
            assert(spec_op_hash(q[k1].op) == spec_op_hash(op));
        }
    }
}

/// Every integration step preserves the metadata-index invariants: each
/// index row sits under the key packed from its value, each link record
/// under its add-link header's hash.
pub proof fn lemma_step_preserves_inv(s: DbView, qk: u128, qv: IntegrationQueueValue)
    requires
        view_inv(s),
    ensures
        view_inv(integrate_step(s, qk, qv)),
{
}


/// A whole drained batch preserves the metadata-index invariants.
pub proof fn lemma_drain_preserves_inv(
    s: DbView,
    entries: Seq<(u128, IntegrationQueueValue)>,
)
    requires
        view_inv(s),
    ensures
        view_inv(crate::workflow::drain_fold(s, entries)),
    decreases entries.len(),
{
    if entries.len() > 0 {
        lemma_step_preserves_inv(s, entries.first().0, entries.first().1);
        lemma_drain_preserves_inv(
            integrate_step(s, entries.first().0, entries.first().1),
            entries.drop_first(),
        );
    }
}


/// One integration step only ever removes queue entries: anything still
/// queued after it was queued before it, unchanged.
pub proof fn lemma_step_only_dequeues(s: DbView, qk: u128, qv: IntegrationQueueValue)
    ensures
        forall|k: u128|
            #[trigger] integrate_step(s, qk, qv).integration_queue.contains_key(k)
                ==> s.integration_queue.contains_key(k) && integrate_step(
                s,
                qk,
                qv,
            ).integration_queue[k] == s.integration_queue[k],
{
}

/// A whole drained batch only ever removes queue entries.
pub proof fn lemma_drain_only_dequeues(s: DbView, entries: Seq<(u128, IntegrationQueueValue)>)
    ensures
        forall|k: u128|
            #[trigger] crate::workflow::drain_fold(s, entries).integration_queue.contains_key(k)
                ==> s.integration_queue.contains_key(k) && crate::workflow::drain_fold(
                s,
                entries,
            ).integration_queue[k] == s.integration_queue[k],
    decreases entries.len(),
{
    if entries.len() > 0 {
        let s1 = integrate_step(s, entries.first().0, entries.first().1);
        lemma_step_only_dequeues(s, entries.first().0, entries.first().1);
        lemma_drain_only_dequeues(s1, entries.drop_first());
        let d = crate::workflow::drain_fold(s, entries);
        assert(d == crate::workflow::drain_fold(s1, entries.drop_first()));
        assert forall|k: u128| #[trigger] d.integration_queue.contains_key(
            k,
        ) implies s.integration_queue.contains_key(k) && d.integration_queue[k]
            == s.integration_queue[k] by {
            assert(s1.integration_queue.contains_key(k));
        }
    }
}

/// A queue free of duplicate operation hashes stays so through a whole
/// integration run: together with the guarded enqueue, no operation is
/// ever queued twice.
pub proof fn lemma_drain_keeps_queue_unique(
    s: DbView,
    entries: Seq<(u128, IntegrationQueueValue)>,
)
    requires
        queue_unique(s.integration_queue),
    ensures
        queue_unique(crate::workflow::drain_fold(s, entries).integration_queue),
{
    lemma_drain_only_dequeues(s, entries);
}

} // verus!
