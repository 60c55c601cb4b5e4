//! The integration workflow, scenario by scenario: a desired pre-state of
//! the environment, one workflow run, and the expected post-state.

use dht_store::Address;
use dht_store::LinkData;
use dht_store::PublicKey;
use dht_store::Signature;
use dht_store::Signed;
use dht_store::Timestamp;
use dht_store::db::DbState;
use dht_store::db::WriteTxn;
use dht_store::dht_op::DhtOp;
use dht_store::dht_op::DhtOpLight;
use dht_store::dht_op::IntegratedDhtOpsValue;
use dht_store::dht_op::IntegrationQueueValue;
use dht_store::dht_op::IntendedFor;
use dht_store::dht_op::NewEntryHeader;
use dht_store::dht_op::ValidationStatus;
use dht_store::dht_op::dht_op_hash;
use dht_store::entry::AddLinkEntry;
use dht_store::entry::AppEntry;
use dht_store::entry::BigEEntry;
use dht_store::entry::DeleteEntry;
use dht_store::entry::Entry;
use dht_store::entry::Header;
use dht_store::entry::NormalHeader;
use dht_store::entry::RemoveLinkEntry;
use dht_store::entry::UpdateHeader;
use dht_store::hash_entry;
use dht_store::hash_header;
use dht_store::hash_public_key;
use dht_store::metadata::LinkMetaKey;
use dht_store::workflow::IntegrateDhtOpsWorkspace;
use dht_store::workflow::integrate_dht_ops_workflow;
use dht_store::workflow::queue_dht_op;

fn sig() -> Signature {
    Signature(99)
}

fn author() -> PublicKey {
    PublicKey(7)
}

fn original_entry() -> BigEEntry {
    BigEEntry::App(AppEntry(11))
}

fn new_entry() -> BigEEntry {
    BigEEntry::App(AppEntry(22))
}

fn original_entry_hash() -> Address {
    hash_entry(&Entry::BigE(original_entry()))
}

fn new_entry_hash() -> Address {
    hash_entry(&Entry::BigE(new_entry()))
}

fn original_header() -> NewEntryHeader {
    NewEntryHeader::Create(NormalHeader {
        prev_header: Address(1),
        entry: original_entry_hash(),
        author: author(),
        timestamp: Timestamp(100),
    })
}

fn original_header_hash() -> Address {
    hash_header(&original_header().into_header())
}

fn any_header() -> Header {
    Header::Create(NormalHeader {
        prev_header: Address(5),
        entry: Address(555),
        author: author(),
        timestamp: Timestamp(50),
    })
}

fn update_header() -> UpdateHeader {
    UpdateHeader {
        replaces: original_header_hash(),
        prev_header: Address(2),
        entry: new_entry_hash(),
        author: author(),
        timestamp: Timestamp(200),
    }
}

fn delete_entry() -> DeleteEntry {
    DeleteEntry { deletes: original_header_hash() }
}

fn delete_header() -> NormalHeader {
    NormalHeader {
        prev_header: Address(3),
        entry: hash_entry(&Entry::Delete(delete_entry())),
        author: author(),
        timestamp: Timestamp(300),
    }
}

fn add_link_entry() -> AddLinkEntry {
    AddLinkEntry {
        base: original_entry_hash(),
        target: new_entry_hash(),
        data: LinkData { zome_id: 3, tag: 4 },
    }
}

fn add_link_header() -> NormalHeader {
    NormalHeader {
        prev_header: Address(4),
        entry: hash_entry(&Entry::AddLink(add_link_entry())),
        author: author(),
        timestamp: Timestamp(400),
    }
}

fn link_add_hash() -> Address {
    hash_header(&Header::AddLink(add_link_header()))
}

fn remove_link_entry() -> RemoveLinkEntry {
    RemoveLinkEntry { base: original_entry_hash(), removes: link_add_hash() }
}

fn remove_link_header() -> NormalHeader {
    NormalHeader {
        prev_header: Address(6),
        entry: hash_entry(&Entry::RemoveLink(remove_link_entry())),
        author: author(),
        timestamp: Timestamp(500),
    }
}

fn commit(ws: IntegrateDhtOpsWorkspace, db: &mut DbState) {
    let mut txn = WriteTxn::begin(db);
    ws.flush_to_txn(&mut txn);
    txn.commit(db);
}

fn enqueue(db: &mut DbState, ts: u64, op: DhtOp) {
    let mut ws = IntegrateDhtOpsWorkspace::new();
    let queued = queue_dht_op(&mut ws, db, Timestamp(ts), ValidationStatus::Valid, op);
    assert!(queued);
    commit(ws, db);
}

fn put_cas(db: &mut DbState, header: Header, entry: Option<Entry>) {
    let mut ws = IntegrateDhtOpsWorkspace::new();
    ws.cas.put(Signed { data: header, signature: sig() }, entry);
    commit(ws, db);
}

fn put_meta_link(db: &mut DbState, n: NormalHeader, ale: AddLinkEntry) {
    let mut ws = IntegrateDhtOpsWorkspace::new();
    ws.meta.add_link(n, ale);
    commit(ws, db);
}

fn run(db: &mut DbState) -> usize {
    integrate_dht_ops_workflow(IntegrateDhtOpsWorkspace::new(), db)
}

fn queue_rows(db: &DbState) -> Vec<(u128, IntegrationQueueValue)> {
    let ws = IntegrateDhtOpsWorkspace::new();
    ws.integration_queue.iter_raw(&db.integration_queue)
}

fn integrated_rows(db: &DbState) -> Vec<(u128, IntegratedDhtOpsValue)> {
    let ws = IntegrateDhtOpsWorkspace::new();
    ws.integrated_dht_ops.iter_raw(&db.integrated_dht_ops)
}

fn get_integrated(db: &DbState, op: &DhtOp) -> Option<IntegratedDhtOpsValue> {
    let ws = IntegrateDhtOpsWorkspace::new();
    ws.integrated_dht_ops.get(&db.integrated_dht_ops, dht_op_hash(op).0 as u128)
}

fn cas_header(db: &DbState, hash: Address) -> Option<Signed<Header>> {
    let ws = IntegrateDhtOpsWorkspace::new();
    ws.cas.get_header(db, &hash)
}

fn cas_entry(db: &DbState, hash: Address) -> Option<Entry> {
    let ws = IntegrateDhtOpsWorkspace::new();
    ws.cas.get_entry(db, &hash)
}

fn links_under_each_key(db: &DbState) -> Vec<Vec<dht_store::metadata::LinkMetaVal>> {
    let ws = IntegrateDhtOpsWorkspace::new();
    let ale = add_link_entry();
    let keys = vec![
        LinkMetaKey::Full(ale.base, ale.data.zome_id, ale.data.tag, link_add_hash()),
        LinkMetaKey::BaseZomeTag(ale.base, ale.data.zome_id, ale.data.tag),
        LinkMetaKey::BaseZome(ale.base, ale.data.zome_id),
        LinkMetaKey::Base(ale.base),
    ];
    keys.iter().map(|k| ws.meta.get_links(db, k)).collect()
}

#[test]
fn store_element() {
    // A header that carries no stored entry: integration writes exactly the
    // header.
    let mut db = DbState::new();
    let op = DhtOp::StoreElement(sig(), any_header(), None);
    enqueue(&mut db, 1, op);
    let n = run(&mut db);
    assert_eq!(n, 1);
    assert_eq!(
        cas_header(&db, hash_header(&any_header())),
        Some(Signed { data: any_header(), signature: sig() })
    );
    assert!(queue_rows(&db).is_empty());
    let value = get_integrated(&db, &op).expect("integrated record");
    assert_eq!(value.validation_status, ValidationStatus::Valid);
    assert_eq!(value.basis, hash_header(&any_header()));
    assert_eq!(value.op, DhtOpLight::StoreElement(hash_header(&any_header()), None));
}

#[test]
fn store_element_with_entry() {
    let mut db = DbState::new();
    let e = Entry::BigE(original_entry());
    let op = DhtOp::StoreElement(sig(), original_header().into_header(), Some(e));
    enqueue(&mut db, 1, op);
    assert_eq!(run(&mut db), 1);
    assert_eq!(cas_entry(&db, original_entry_hash()), Some(e));
    assert_eq!(
        get_integrated(&db, &op).unwrap().op,
        DhtOpLight::StoreElement(original_header_hash(), Some(original_entry_hash()))
    );
}

#[test]
fn store_entry() {
    let mut db = DbState::new();
    let op = DhtOp::StoreEntry(sig(), original_header(), original_entry());
    enqueue(&mut db, 1, op);
    assert_eq!(run(&mut db), 1);
    // CAS holds header and entry.
    assert_eq!(
        cas_header(&db, original_header_hash()),
        Some(Signed { data: original_header().into_header(), signature: sig() })
    );
    assert_eq!(cas_entry(&db, original_entry_hash()), Some(Entry::BigE(original_entry())));
    // headers-by-entry[E1] = {H1}.
    let ws = IntegrateDhtOpsWorkspace::new();
    assert_eq!(ws.meta.get_headers(&db, original_entry_hash()), vec![original_header_hash().0]);
    // Exactly one integrated record, under the operation's hash.
    let rows = integrated_rows(&db);
    assert_eq!(rows.len(), 1);
    assert_eq!(rows[0].0, dht_op_hash(&op).0 as u128);
    assert_eq!(
        rows[0].1,
        IntegratedDhtOpsValue {
            validation_status: ValidationStatus::Valid,
            basis: original_entry_hash(),
            op: DhtOpLight::StoreEntry(original_header_hash(), original_entry_hash()),
        }
    );
    assert!(queue_rows(&db).is_empty());
}

#[test]
fn register_agent_activity() {
    let mut db = DbState::new();
    let op = DhtOp::RegisterAgentActivity(sig(), any_header());
    enqueue(&mut db, 1, op);
    assert_eq!(run(&mut db), 1);
    let ws = IntegrateDhtOpsWorkspace::new();
    assert_eq!(
        ws.meta.get_activity(&db, hash_public_key(&author())),
        vec![hash_header(&any_header()).0]
    );
    assert!(get_integrated(&db, &op).is_some());
}

#[test]
fn register_replaced_by_for_header() {
    let mut db = DbState::new();
    let op = DhtOp::RegisterReplacedBy(sig(), update_header(), IntendedFor::Header, Some(new_entry()));
    put_cas(&mut db, original_header().into_header(), None);
    enqueue(&mut db, 1, op);
    assert_eq!(run(&mut db), 1);
    let ws = IntegrateDhtOpsWorkspace::new();
    // updates-by-basis[original header hash] holds the update header.
    assert_eq!(
        ws.meta.get_updates(&db, original_header_hash()),
        vec![hash_header(&Header::Update(update_header())).0]
    );
    let value = get_integrated(&db, &op).unwrap();
    assert_eq!(value.basis, original_header_hash());
}

#[test]
fn register_replaced_by_for_entry() {
    let mut db = DbState::new();
    let op = DhtOp::RegisterReplacedBy(sig(), update_header(), IntendedFor::Entry, Some(new_entry()));
    put_cas(&mut db, original_header().into_header(), Some(Entry::BigE(original_entry())));
    enqueue(&mut db, 1, op);
    assert_eq!(run(&mut db), 1);
    let ws = IntegrateDhtOpsWorkspace::new();
    // updates-by-basis[original entry hash] holds the update header.
    assert_eq!(
        ws.meta.get_updates(&db, original_entry_hash()),
        vec![hash_header(&Header::Update(update_header())).0]
    );
    assert_eq!(get_integrated(&db, &op).unwrap().basis, original_entry_hash());
}

#[test]
fn register_replaced_by_missing_entry() {
    // The original is absent: the operation stays queued, and nothing at
    // all is written.
    let mut db = DbState::new();
    let op = DhtOp::RegisterReplacedBy(sig(), update_header(), IntendedFor::Entry, Some(new_entry()));
    enqueue(&mut db, 1, op);
    assert_eq!(run(&mut db), 0);
    assert!(integrated_rows(&db).is_empty());
    let rows = queue_rows(&db);
    assert_eq!(rows.len(), 1);
    assert_eq!(
        rows[0].1,
        IntegrationQueueValue { validation_status: ValidationStatus::Valid, op }
    );
    let ws = IntegrateDhtOpsWorkspace::new();
    assert!(ws.meta.get_updates(&db, original_entry_hash()).is_empty());
    assert!(ws.meta.get_updates(&db, original_header_hash()).is_empty());
}

#[test]
fn replaced_by_retry_after_dependency() {
    // Re-running integration after the dependency appears succeeds and
    // produces the expected updates-by-basis entry.
    let mut db = DbState::new();
    let op = DhtOp::RegisterReplacedBy(sig(), update_header(), IntendedFor::Entry, Some(new_entry()));
    enqueue(&mut db, 1, op);
    assert_eq!(run(&mut db), 0);
    // The dependency arrives: the original element is stored.
    let store = DhtOp::StoreEntry(sig(), original_header(), original_entry());
    enqueue(&mut db, 2, store);
    // The update sits earlier in the queue than the store, so this run
    // integrates only the store; the next trigger integrates the update.
    assert_eq!(run(&mut db), 1);
    assert_eq!(run(&mut db), 1);
    let ws = IntegrateDhtOpsWorkspace::new();
    assert_eq!(
        ws.meta.get_updates(&db, original_entry_hash()),
        vec![hash_header(&Header::Update(update_header())).0]
    );
    assert!(queue_rows(&db).is_empty());
}

#[test]
fn register_deleted_by() {
    let mut db = DbState::new();
    let op = DhtOp::RegisterDeletedBy(sig(), delete_header(), delete_entry());
    put_cas(&mut db, original_header().into_header(), None);
    enqueue(&mut db, 1, op);
    assert_eq!(run(&mut db), 1);
    let ws = IntegrateDhtOpsWorkspace::new();
    // deletes-by-basis[original header hash] holds the delete header.
    assert_eq!(
        ws.meta.get_deletes(&db, original_header_hash()),
        vec![hash_header(&Header::Delete(delete_header())).0]
    );
    assert_eq!(get_integrated(&db, &op).unwrap().basis, original_header_hash());
}

#[test]
fn register_deleted_by_missing_header() {
    let mut db = DbState::new();
    let op = DhtOp::RegisterDeletedBy(sig(), delete_header(), delete_entry());
    enqueue(&mut db, 1, op);
    assert_eq!(run(&mut db), 0);
    assert!(integrated_rows(&db).is_empty());
    assert_eq!(queue_rows(&db).len(), 1);
}

#[test]
fn register_deleted_entry_header() {
    let mut db = DbState::new();
    let op = DhtOp::RegisterDeletedEntryHeader(sig(), delete_header(), delete_entry());
    put_cas(&mut db, original_header().into_header(), None);
    enqueue(&mut db, 1, op);
    assert_eq!(run(&mut db), 1);
    let ws = IntegrateDhtOpsWorkspace::new();
    // deletes-by-basis[original entry hash] holds the delete header.
    assert_eq!(
        ws.meta.get_deletes(&db, original_entry_hash()),
        vec![hash_header(&Header::Delete(delete_header())).0]
    );
    assert_eq!(get_integrated(&db, &op).unwrap().basis, original_entry_hash());
}

#[test]
fn register_deleted_entry_header_missing_header() {
    let mut db = DbState::new();
    let op = DhtOp::RegisterDeletedEntryHeader(sig(), delete_header(), delete_entry());
    enqueue(&mut db, 1, op);
    assert_eq!(run(&mut db), 0);
    assert!(integrated_rows(&db).is_empty());
    assert_eq!(queue_rows(&db).len(), 1);
}

#[test]
fn register_add_link() {
    let mut db = DbState::new();
    let op = DhtOp::RegisterAddLink(sig(), add_link_header(), add_link_entry());
    put_cas(&mut db, original_header().into_header(), Some(Entry::BigE(original_entry())));
    enqueue(&mut db, 1, op);
    assert_eq!(run(&mut db), 1);
    for links in links_under_each_key(&db) {
        assert_eq!(links.len(), 1);
        assert_eq!(links[0].link_add_hash, link_add_hash());
        assert_eq!(links[0].target, new_entry_hash());
        assert_eq!(links[0].zome_id, 3);
        assert_eq!(links[0].tag, 4);
    }
    assert!(get_integrated(&db, &op).is_some());
}

#[test]
fn register_remove_link() {
    let mut db = DbState::new();
    let op = DhtOp::RegisterRemoveLink(sig(), remove_link_header(), remove_link_entry());
    put_cas(&mut db, Header::AddLink(add_link_header()), Some(Entry::AddLink(add_link_entry())));
    put_cas(&mut db, original_header().into_header(), Some(Entry::BigE(original_entry())));
    put_meta_link(&mut db, add_link_header(), add_link_entry());
    enqueue(&mut db, 1, op);
    assert_eq!(run(&mut db), 1);
    for links in links_under_each_key(&db) {
        assert_eq!(links.len(), 0);
    }
    assert!(get_integrated(&db, &op).is_some());
    assert!(queue_rows(&db).is_empty());
}

#[test]
fn register_remove_link_missing_add_header() {
    let mut db = DbState::new();
    let op = DhtOp::RegisterRemoveLink(sig(), remove_link_header(), remove_link_entry());
    put_cas(&mut db, original_header().into_header(), Some(Entry::BigE(original_entry())));
    enqueue(&mut db, 1, op);
    assert_eq!(run(&mut db), 0);
    assert!(integrated_rows(&db).is_empty());
    assert_eq!(queue_rows(&db).len(), 1);
}

#[test]
fn register_remove_link_missing_add_metadata() {
    // The add-link header is stored but its link record is not: the remove
    // stays queued and link metadata stays empty.
    let mut db = DbState::new();
    let op = DhtOp::RegisterRemoveLink(sig(), remove_link_header(), remove_link_entry());
    put_cas(&mut db, Header::AddLink(add_link_header()), Some(Entry::AddLink(add_link_entry())));
    put_cas(&mut db, original_header().into_header(), Some(Entry::BigE(original_entry())));
    enqueue(&mut db, 1, op);
    assert_eq!(run(&mut db), 0);
    assert!(integrated_rows(&db).is_empty());
    assert_eq!(queue_rows(&db).len(), 1);
    for links in links_under_each_key(&db) {
        assert_eq!(links.len(), 0);
    }
}

#[test]
fn register_remove_link_missing_base() {
    let mut db = DbState::new();
    let op = DhtOp::RegisterRemoveLink(sig(), remove_link_header(), remove_link_entry());
    enqueue(&mut db, 1, op);
    assert_eq!(run(&mut db), 0);
    assert!(integrated_rows(&db).is_empty());
    assert_eq!(queue_rows(&db).len(), 1);
}

#[test]
fn remove_link_retry_after_add_link_integrates() {
    // The remove waits in the queue; once the add-link integrates on a
    // later run, a retry removes exactly the matching record.
    let mut db = DbState::new();
    let remove = DhtOp::RegisterRemoveLink(sig(), remove_link_header(), remove_link_entry());
    put_cas(&mut db, Header::AddLink(add_link_header()), Some(Entry::AddLink(add_link_entry())));
    put_cas(&mut db, original_header().into_header(), Some(Entry::BigE(original_entry())));
    enqueue(&mut db, 1, remove);
    assert_eq!(run(&mut db), 0);
    let add = DhtOp::RegisterAddLink(sig(), add_link_header(), add_link_entry());
    enqueue(&mut db, 2, add);
    // One run integrates the add-link; the remove is earlier in the queue,
    // so it still misses its record on this run.
    assert_eq!(run(&mut db), 1);
    for links in links_under_each_key(&db) {
        assert_eq!(links.len(), 1);
    }
    // The next trigger integrates the remove.
    assert_eq!(run(&mut db), 1);
    for links in links_under_each_key(&db) {
        assert_eq!(links.len(), 0);
    }
    assert!(queue_rows(&db).is_empty());
}

#[test]
fn idempotent_reintegration() {
    // Integrating the same valid operation twice produces an identical
    // integrated record both times.
    let mut db = DbState::new();
    let op = DhtOp::StoreEntry(sig(), original_header(), original_entry());
    enqueue(&mut db, 1, op);
    assert_eq!(run(&mut db), 1);
    let first = get_integrated(&db, &op).unwrap();

    // Queue the identical operation again, bypassing the duplicate check,
    // and run once more.
    let mut ws = IntegrateDhtOpsWorkspace::new();
    ws.integration_queue.put(
        dht_store::dht_op::queue_key(Timestamp(9), dht_op_hash(&op).0),
        IntegrationQueueValue { validation_status: ValidationStatus::Valid, op },
    );
    commit(ws, &mut db);
    assert_eq!(run(&mut db), 1);
    let second = get_integrated(&db, &op).unwrap();
    assert_eq!(first, second);
    let rows = integrated_rows(&db);
    assert_eq!(rows.len(), 1);
}

#[test]
fn never_double_queued() {
    // Queueing the same operation twice leaves a single queue entry, and
    // queueing an already-integrated operation is refused.
    let mut db = DbState::new();
    let op = DhtOp::StoreEntry(sig(), original_header(), original_entry());
    let mut ws = IntegrateDhtOpsWorkspace::new();
    assert!(queue_dht_op(&mut ws, &db, Timestamp(1), ValidationStatus::Valid, op));
    commit(ws, &mut db);
    let mut ws = IntegrateDhtOpsWorkspace::new();
    assert!(!queue_dht_op(&mut ws, &db, Timestamp(2), ValidationStatus::Valid, op));
    commit(ws, &mut db);
    assert_eq!(queue_rows(&db).len(), 1);

    assert_eq!(run(&mut db), 1);
    let mut ws = IntegrateDhtOpsWorkspace::new();
    assert!(!queue_dht_op(&mut ws, &db, Timestamp(3), ValidationStatus::Valid, op));
    commit(ws, &mut db);
    assert!(queue_rows(&db).is_empty());
}

#[test]
fn rejected_op_is_recorded_without_effects() {
    // A non-valid operation is preserved for audit in the integrated store,
    // but no effect reaches the content-addressed store.
    let mut db = DbState::new();
    let op = DhtOp::StoreEntry(sig(), original_header(), original_entry());
    let mut ws = IntegrateDhtOpsWorkspace::new();
    assert!(queue_dht_op(&mut ws, &db, Timestamp(1), ValidationStatus::Rejected, op));
    commit(ws, &mut db);
    assert_eq!(run(&mut db), 1);
    assert_eq!(cas_header(&db, original_header_hash()), None);
    assert_eq!(cas_entry(&db, original_entry_hash()), None);
    let value = get_integrated(&db, &op).unwrap();
    assert_eq!(value.validation_status, ValidationStatus::Rejected);
}

#[test]
fn txn_abort_discards_buffered_writes() {
    // The flush is the sole commit point: when the surrounding transaction
    // is aborted instead of committed, none of the buffered writes take
    // effect.
    let mut db = DbState::new();
    let mut ws = IntegrateDhtOpsWorkspace::new();
    ws.cas.put(
        Signed { data: original_header().into_header(), signature: sig() },
        Some(Entry::BigE(original_entry())),
    );
    let mut txn = WriteTxn::begin(&db);
    ws.flush_to_txn(&mut txn);
    txn.abort();
    assert_eq!(cas_header(&db, original_header_hash()), None);
    assert_eq!(cas_entry(&db, original_entry_hash()), None);
}
