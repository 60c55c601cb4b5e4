//! The persisted state of one storage environment: the integration queue,
//! the integrated-operations store, the content-addressed stores for headers
//! and entries, and the derived metadata indexes — together with the write
//! transaction that is the only way any of them changes.

use vstd::prelude::*;
use crate::Signed;
use crate::dht_op::IntegratedDhtOpsValue;
use crate::dht_op::IntegrationQueueValue;
use crate::entry::Entry;
use crate::entry::Header;
use crate::metadata::LinkMetaVal;
use crate::table::Table;

verus! {

/// An index row key: the basis hash in the high bits, the indexed hash in
/// the low ones. One key per (basis, item) pair gives the indexes set
/// semantics.
pub open spec fn spec_pack(basis: u64, item: u64) -> u128 {
    ((basis as u128) << 64u128) | (item as u128)
}

pub fn pack_key(basis: u64, item: u64) -> (r: u128)
    ensures
        r == spec_pack(basis, item),
{
    ((basis as u128) << 64u128) | (item as u128)
}

/// The set of hashes an index holds under one basis.
pub open spec fn index_items(m: Map<u128, (u64, u64)>, basis: u64) -> Set<u64> {
    Set::new(|h: u64| exists|k: u128| #![auto] m.contains_key(k) && m[k] == (basis, h))
}

/// Every index row sits under the key packed from its own value.
pub open spec fn index_inv(m: Map<u128, (u64, u64)>) -> bool {
    forall|k: u128| #[trigger] m.contains_key(k) ==> k == spec_pack(m[k].0, m[k].1)
}

/// Every link record sits under its own add-link header hash.
pub open spec fn links_inv(m: Map<u128, LinkMetaVal>) -> bool {
    forall|k: u128| #[trigger] m.contains_key(k) ==> k == (m[k].link_add_hash.0 as u128)
}

/// The persisted tables of one storage environment.
pub struct DbState {
    /// key = (timestamp, operation hash) → operation awaiting integration.
    pub integration_queue: Table<IntegrationQueueValue>,
    /// key = operation hash → the operation's integrated record.
    pub integrated_dht_ops: Table<IntegratedDhtOpsValue>,
    /// key = header hash → the signed header.
    pub cas_headers: Table<Signed<Header>>,
    /// key = entry hash → the entry.
    pub cas_entries: Table<Entry>,
    /// key = (entry hash, header hash) → that pair.
    pub meta_headers_by_entry: Table<(u64, u64)>,
    /// key = (author key hash, header hash) → that pair.
    pub meta_activity: Table<(u64, u64)>,
    /// key = (basis, update-header hash) → that pair.
    pub meta_updates: Table<(u64, u64)>,
    /// key = (basis, delete-header hash) → that pair.
    pub meta_deletes: Table<(u64, u64)>,
    /// key = add-link header hash → the link record.
    pub meta_links: Table<LinkMetaVal>,
}

/// The whole environment read as maps: what every contract of the
/// integration layer speaks about.
#[verifier::ext_equal]
pub struct DbView {
    pub integration_queue: Map<u128, IntegrationQueueValue>,
    pub integrated_dht_ops: Map<u128, IntegratedDhtOpsValue>,
    pub cas_headers: Map<u128, Signed<Header>>,
    pub cas_entries: Map<u128, Entry>,
    pub meta_headers_by_entry: Map<u128, (u64, u64)>,
    pub meta_activity: Map<u128, (u64, u64)>,
    pub meta_updates: Map<u128, (u64, u64)>,
    pub meta_deletes: Map<u128, (u64, u64)>,
    pub meta_links: Map<u128, LinkMetaVal>,
}

impl View for DbState {
    type V = DbView;

    open spec fn view(&self) -> DbView {
        DbView {
            integration_queue: self.integration_queue@,
            integrated_dht_ops: self.integrated_dht_ops@,
            cas_headers: self.cas_headers@,
            cas_entries: self.cas_entries@,
            meta_headers_by_entry: self.meta_headers_by_entry@,
            meta_activity: self.meta_activity@,
            meta_updates: self.meta_updates@,
            meta_deletes: self.meta_deletes@,
            meta_links: self.meta_links@,
        }
    }
}

/// The view of an environment with nothing persisted.
pub open spec fn empty_db_view() -> DbView {
    DbView {
        integration_queue: Map::empty(),
        integrated_dht_ops: Map::empty(),
        cas_headers: Map::empty(),
        cas_entries: Map::empty(),
        meta_headers_by_entry: Map::empty(),
        meta_activity: Map::empty(),
        meta_updates: Map::empty(),
        meta_deletes: Map::empty(),
        meta_links: Map::empty(),
    }
}

/// The metadata indexes agree with their keys.
pub open spec fn view_inv(v: DbView) -> bool {
    &&& index_inv(v.meta_headers_by_entry)
    &&& index_inv(v.meta_activity)
    &&& index_inv(v.meta_updates)
    &&& index_inv(v.meta_deletes)
    &&& links_inv(v.meta_links)
}

impl DbState {
    /// Every table is well formed.
    pub open spec fn wf(self) -> bool {
        &&& self.integration_queue.wf()
        &&& self.integrated_dht_ops.wf()
        &&& self.cas_headers.wf()
        &&& self.cas_entries.wf()
        &&& self.meta_headers_by_entry.wf()
        &&& self.meta_activity.wf()
        &&& self.meta_updates.wf()
        &&& self.meta_deletes.wf()
        &&& self.meta_links.wf()
    }

    /// An environment with nothing persisted.
    pub fn new() -> (r: Self)
        ensures
            r.wf(),
            r@ == empty_db_view(),
            view_inv(r@),
            r.integration_queue.spec_rows() == Seq::<(u128, IntegrationQueueValue)>::empty(),
    {
        let r = DbState {
            integration_queue: Table::new(),
            integrated_dht_ops: Table::new(),
            cas_headers: Table::new(),
            cas_entries: Table::new(),
            meta_headers_by_entry: Table::new(),
            meta_activity: Table::new(),
            meta_updates: Table::new(),
            meta_deletes: Table::new(),
            meta_links: Table::new(),
        };
        proof {
            assert(r@ =~= empty_db_view());
        }
        r
    }
}

/// The single write-transaction slot of the environment: a staged copy of
/// every table. Buffers flush into the staged copy; `commit` makes it the
/// persisted state in one step; dropping the transaction instead (an abort)
/// leaves the persisted state untouched.
pub struct WriteTxn {
    pub staged: DbState,
}

impl WriteTxn {
    /// Open the write slot: stage a copy of the persisted state.
    pub fn begin(db: &DbState) -> (t: Self)
        requires
            db.wf(),
        ensures
            t.staged.wf(),
            t.staged@ == db@,
    {
        let t = WriteTxn {
            staged: DbState {
                integration_queue: db.integration_queue.dup(),
                integrated_dht_ops: db.integrated_dht_ops.dup(),
                cas_headers: db.cas_headers.dup(),
                cas_entries: db.cas_entries.dup(),
                meta_headers_by_entry: db.meta_headers_by_entry.dup(),
                meta_activity: db.meta_activity.dup(),
                meta_updates: db.meta_updates.dup(),
                meta_deletes: db.meta_deletes.dup(),
                meta_links: db.meta_links.dup(),
            },
        };
        proof {
            assert(t.staged@ =~= db@);
        }
        t
    }

    /// Commit: the staged state becomes the persisted state, atomically.
    pub fn commit(self, db: &mut DbState)
        ensures
            *final(db) == self.staged,
    {
        *db = self.staged;
    }

    /// Abort: discard the staged state; the persisted state is untouched.
    pub fn abort(self) {
    }
}

} // verus!
