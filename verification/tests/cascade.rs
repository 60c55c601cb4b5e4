//! The cascade read path: local element reads, details by hash kind, the
//! invalid-response check on network answers, and link merging.

use dht_store::Address;
use dht_store::LinkData;
use dht_store::PublicKey;
use dht_store::Signature;
use dht_store::Signed;
use dht_store::Timestamp;
use dht_store::cascade::CascadeError;
use dht_store::cascade::Details;
use dht_store::cascade::HashKind;
use dht_store::cascade::dht_get;
use dht_store::cascade::get_details;
use dht_store::cascade::get_original_address;
use dht_store::cascade::merge_links;
use dht_store::db::DbState;
use dht_store::db::WriteTxn;
use dht_store::entry::AppEntry;
use dht_store::entry::BigEEntry;
use dht_store::entry::DHTElement;
use dht_store::entry::Entry;
use dht_store::entry::Header;
use dht_store::entry::HeaderWithEntry;
use dht_store::entry::NormalHeader;
use dht_store::hash_entry;
use dht_store::hash_header;
use dht_store::metadata::LinkMetaVal;
use dht_store::workflow::IntegrateDhtOpsWorkspace;

fn entry() -> Entry {
    Entry::BigE(BigEEntry::App(AppEntry(42)))
}

fn header() -> Header {
    Header::Create(NormalHeader {
        prev_header: Address(1),
        entry: hash_entry(&entry()),
        author: PublicKey(3),
        timestamp: Timestamp(4),
    })
}

fn stored_db() -> DbState {
    let mut db = DbState::new();
    let mut ws = IntegrateDhtOpsWorkspace::new();
    ws.cas.put(Signed { data: header(), signature: Signature(5) }, Some(entry()));
    let mut txn = WriteTxn::begin(&db);
    ws.flush_to_txn(&mut txn);
    txn.commit(&mut db);
    db
}

#[test]
fn dht_get_returns_full_element_when_both_stored() {
    let db = stored_db();
    let ws = IntegrateDhtOpsWorkspace::new();
    let r = dht_get(&ws.cas, &db, &hash_header(&header()));
    assert_eq!(
        r,
        Some(DHTElement::HeaderWithEntry(HeaderWithEntry::Create(
            match header() {
                Header::Create(n) => n,
                _ => unreachable!(),
            },
            BigEEntry::App(AppEntry(42)),
        )))
    );
}

#[test]
fn dht_get_missing_hash_answers_nothing() {
    let db = stored_db();
    let ws = IntegrateDhtOpsWorkspace::new();
    assert_eq!(dht_get(&ws.cas, &db, &Address(999)), None);
}

#[test]
fn get_details_by_hash_kind() {
    let db = stored_db();
    let ws = IntegrateDhtOpsWorkspace::new();
    assert_eq!(
        get_details(&ws.cas, &db, &hash_header(&header()), HashKind::Header),
        Some(Details::Element(
            Signed { data: header(), signature: Signature(5) },
            Some(entry()),
        ))
    );
    assert_eq!(
        get_details(&ws.cas, &db, &hash_entry(&entry()), HashKind::Entry),
        Some(Details::Entry(entry()))
    );
    assert_eq!(get_details(&ws.cas, &db, &Address(999), HashKind::Header), None);
}

#[test]
fn get_original_address_resolves_and_rejects() {
    let addr = Address(77);
    // A full element whose header stores an entry resolves to that entry.
    let details = Some(Details::Element(
        Signed { data: header(), signature: Signature(5) },
        Some(entry()),
    ));
    assert_eq!(get_original_address(details, addr), Ok(hash_entry(&entry())));

    // Entry details for a header hash are a collaborator bug.
    assert_eq!(
        get_original_address(Some(Details::Entry(entry())), addr),
        Err(CascadeError::InvalidResponse(addr))
    );

    // A missing element is a missing dependency.
    assert_eq!(get_original_address(None, addr), Err(CascadeError::ElementDeps(addr)));
}

#[test]
fn merge_links_keeps_local_and_adds_unseen() {
    let mk = |h: u64, t: u64| LinkMetaVal {
        link_add_hash: Address(h),
        target: Address(t),
        zome_id: 1,
        tag: 2,
        base: Address(3),
    };
    let local = vec![mk(1, 10)];
    // One fetched record repeats the local add-link header (with a stale
    // target), one is new.
    let fetched = vec![mk(1, 99), mk(2, 20)];
    let merged = merge_links(local, &fetched);
    assert_eq!(merged, vec![mk(1, 10), mk(2, 20)]);
}
