//! The data model's pairing and projection functions, content hashing, and
//! the commit-side notification transforms.

use dht_store::Address;
use dht_store::Dna;
use dht_store::LinkData;
use dht_store::PublicKey;
use dht_store::Signature;
use dht_store::Signed;
use dht_store::Timestamp;
use dht_store::entry::AddLinkEntry;
use dht_store::entry::AppEntry;
use dht_store::entry::BigEEntry;
use dht_store::entry::ChainEntry;
use dht_store::entry::ChainHeaderWithEntry;
use dht_store::entry::DeleteEntry;
use dht_store::entry::Entry;
use dht_store::entry::Header;
use dht_store::entry::HeaderWithEntry;
use dht_store::entry::MinHeader;
use dht_store::entry::NormalHeader;
use dht_store::entry::UpdateHeader;
use dht_store::hash_entry;
use dht_store::hash_header;
use dht_store::hash_public_key;
use dht_store::transforms::Notification;
use dht_store::transforms::hash_hood;
use dht_store::transforms::produce_notifications;

fn normal() -> NormalHeader {
    NormalHeader {
        prev_header: Address(1),
        entry: Address(2),
        author: PublicKey(3),
        timestamp: Timestamp(4),
    }
}

fn update() -> UpdateHeader {
    UpdateHeader {
        replaces: Address(9),
        prev_header: Address(1),
        entry: Address(2),
        author: PublicKey(3),
        timestamp: Timestamp(4),
    }
}

fn app_entry() -> BigEEntry {
    BigEEntry::App(AppEntry(42))
}

#[test]
fn try_from_parts_pairs_matching_kinds() {
    let h = Header::Create(normal());
    let e = Entry::BigE(app_entry());
    assert_eq!(
        HeaderWithEntry::try_from_parts(h, e),
        Ok(HeaderWithEntry::Create(normal(), app_entry()))
    );

    let h = Header::Delete(normal());
    let e = Entry::Delete(DeleteEntry { deletes: Address(8) });
    assert_eq!(
        HeaderWithEntry::try_from_parts(h, e),
        Ok(HeaderWithEntry::Delete(normal(), DeleteEntry { deletes: Address(8) }))
    );
}

#[test]
fn try_from_parts_refuses_mismatched_kinds() {
    let h = Header::Create(normal());
    let e = Entry::Delete(DeleteEntry { deletes: Address(8) });
    assert_eq!(HeaderWithEntry::try_from_parts(h, e), Err((h, e)));
}

#[test]
fn chain_try_from_parts() {
    let min = MinHeader { entry: Address(2), author: PublicKey(3), timestamp: Timestamp(4) };
    let h = Header::Dna(min);
    let e = ChainEntry::Dna(Dna(77));
    assert_eq!(
        ChainHeaderWithEntry::try_from_parts(h, e),
        Ok(ChainHeaderWithEntry::Dna(min, Dna(77)))
    );
    // A Dna entry under a non-genesis header is refused.
    let h = Header::Create(normal());
    assert_eq!(ChainHeaderWithEntry::try_from_parts(h, e), Err((h, e)));
    // A normal pair nests through the same pairing rule.
    let e = ChainEntry::Normal(Entry::BigE(app_entry()));
    assert_eq!(
        ChainHeaderWithEntry::try_from_parts(h, e),
        Ok(ChainHeaderWithEntry::Normal(HeaderWithEntry::Create(normal(), app_entry())))
    );
}

#[test]
fn into_header_keeps_the_variant() {
    let hwe = HeaderWithEntry::Update(update(), app_entry());
    assert_eq!(hwe.into_header(), Header::Update(update()));
}

#[test]
fn author_reads_every_variant() {
    assert_eq!(*Header::Create(normal()).author(), PublicKey(3));
    assert_eq!(*Header::Update(update()).author(), PublicKey(3));
    let min = MinHeader { entry: Address(2), author: PublicKey(30), timestamp: Timestamp(4) };
    assert_eq!(*Header::Dna(min).author(), PublicKey(30));
}

#[test]
fn content_addressing_is_deterministic() {
    // Identical content always yields the same key; distinct variants over
    // the same fields yield distinct keys here.
    assert_eq!(hash_header(&Header::Create(normal())), hash_header(&Header::Create(normal())));
    assert_ne!(hash_header(&Header::Create(normal())), hash_header(&Header::Delete(normal())));
    assert_eq!(
        hash_entry(&Entry::BigE(app_entry())),
        hash_entry(&Entry::BigE(app_entry()))
    );
}

#[test]
fn hash_hood_routes_each_notification() {
    let s = Signature(5);
    let header = Signed { data: Header::Create(normal()), signature: s };
    assert_eq!(hash_hood(Notification::StoreHeader(header)), hash_header(&header.data));

    let nh = Signed { data: normal(), signature: s };
    assert_eq!(hash_hood(Notification::StoreEntry(nh, app_entry())), Address(2));

    assert_eq!(
        hash_hood(Notification::RegisterAgentActivity(header)),
        hash_public_key(&PublicKey(3))
    );

    let uh = Signed { data: update(), signature: s };
    assert_eq!(hash_hood(Notification::RegisterUpdatedTo(uh, app_entry())), Address(9));

    assert_eq!(
        hash_hood(Notification::RegisterDeletedBy(nh, DeleteEntry { deletes: Address(8) })),
        Address(8)
    );

    let ale = AddLinkEntry {
        base: Address(21),
        target: Address(22),
        data: LinkData { zome_id: 1, tag: 2 },
    };
    assert_eq!(hash_hood(Notification::RegisterAddLink(nh, ale)), Address(21));

    let rle = dht_store::entry::RemoveLinkEntry { base: Address(21), removes: Address(23) };
    assert_eq!(hash_hood(Notification::RegisterRemoveLink(nh, rle)), Address(21));
}

#[test]
fn produce_notifications_per_header_kind() {
    let s = Signature(5);

    // A create announces header, entry and activity.
    let commit = Signed {
        data: ChainHeaderWithEntry::Normal(HeaderWithEntry::Create(normal(), app_entry())),
        signature: s,
    };
    let header = Signed { data: Header::Create(normal()), signature: s };
    assert_eq!(
        produce_notifications(commit),
        vec![
            Notification::StoreHeader(header),
            Notification::StoreEntry(Signed { data: normal(), signature: s }, app_entry()),
            Notification::RegisterAgentActivity(header),
        ]
    );

    // An update carries its new entry in the replaced-by announcement.
    let commit = Signed {
        data: ChainHeaderWithEntry::Normal(HeaderWithEntry::Update(update(), app_entry())),
        signature: s,
    };
    let header = Signed { data: Header::Update(update()), signature: s };
    assert_eq!(
        produce_notifications(commit),
        vec![
            Notification::StoreHeader(header),
            Notification::RegisterAgentActivity(header),
            Notification::RegisterUpdatedTo(Signed { data: update(), signature: s }, app_entry()),
        ]
    );

    // The genesis record announces only header and activity.
    let min = MinHeader { entry: Address(2), author: PublicKey(3), timestamp: Timestamp(4) };
    let commit = Signed { data: ChainHeaderWithEntry::Dna(min, Dna(77)), signature: s };
    let header = Signed { data: Header::Dna(min), signature: s };
    assert_eq!(
        produce_notifications(commit),
        vec![
            Notification::StoreHeader(header),
            Notification::RegisterAgentActivity(header),
        ]
    );
}

#[test]
fn hash_mix_exact_values() {
    // One mixing round: rotate the accumulator left by five and fold the
    // word in with exclusive or.
    assert_eq!(dht_store::hash_mix(1, 0), 32);
    assert_eq!(dht_store::hash_mix(0x8000000000000000, 1), 17);
    assert_eq!(dht_store::hash_mix(0, 0xabcd), 0xabcd);
}

#[test]
fn key_formulas_exact_values() {
    // The queue key: timestamp in the high 64 bits, operation hash low.
    assert_eq!(dht_store::dht_op::queue_key(Timestamp(1), 2), (1u128 << 64) | 2);
    // An index row key: basis high, indexed hash low.
    assert_eq!(dht_store::db::pack_key(3, 4), (3u128 << 64) | 4);
}
