//! The chain-root gatekeeper: direct appends, stale appends refused, and
//! stale appends rebased onto the moved head.

use dht_store::Address;
use dht_store::PublicKey;
use dht_store::Signature;
use dht_store::Signed;
use dht_store::Timestamp;
use dht_store::entry::Header;
use dht_store::entry::NormalHeader;
use dht_store::gatekeep::ChainRootGatekeeper;
use dht_store::gatekeep::LmdbTransaction;
use dht_store::gatekeep::LmdbUnique;
use dht_store::gatekeep::TransactError;
use dht_store::gatekeep::get_source_chain_root_hash;
use dht_store::hash_header;

fn header_on(prev: Address, payload: u64) -> Signed<Header> {
    Signed {
        data: Header::Create(NormalHeader {
            prev_header: prev,
            entry: Address(payload),
            author: PublicKey(7),
            timestamp: Timestamp(payload),
        }),
        signature: Signature(1),
    }
}

/// A transaction of `n` headers chained onto `base`.
fn txn_on(base: Address, first_payload: u64, n: u64) -> LmdbTransaction {
    let mut headers = Vec::new();
    let mut prev = base;
    for i in 0..n {
        let sh = header_on(prev, first_payload + i);
        prev = hash_header(&sh.data);
        headers.push(sh);
    }
    LmdbTransaction { base, headers }
}

#[test]
fn direct_append_moves_head() {
    let genesis = Address(1000);
    let mut gk = ChainRootGatekeeper::new(LmdbUnique::new(genesis));
    let txn = txn_on(genesis, 1, 2);
    let last_hash = hash_header(&txn.headers[1].data);
    let r = gk.gatekeep(txn, genesis, false);
    assert!(r.is_ok());
    assert_eq!(get_source_chain_root_hash(&gk.db.downgrade()), last_hash);
}

#[test]
fn stale_append_not_rebasable_returns_head_moved() {
    let genesis = Address(1000);
    let mut gk = ChainRootGatekeeper::new(LmdbUnique::new(genesis));

    // Two callers build against the same head; the mailbox serializes them,
    // so the second observes the head the first left behind.
    let first = txn_on(genesis, 1, 1);
    let second = txn_on(genesis, 10, 1);
    assert!(gk.gatekeep(first, genesis, false).is_ok());
    let head_after_first = get_source_chain_root_hash(&gk.db.downgrade());

    let r = gk.gatekeep(second, genesis, false);
    assert_eq!(r, Err(TransactError::HeadMoved));
    // The refused append left the chain unmodified.
    assert_eq!(get_source_chain_root_hash(&gk.db.downgrade()), head_after_first);
}

#[test]
fn stale_append_rebasable_is_grafted() {
    let genesis = Address(1000);
    let mut gk = ChainRootGatekeeper::new(LmdbUnique::new(genesis));

    let first = txn_on(genesis, 1, 1);
    let second = txn_on(genesis, 10, 2);
    assert!(gk.gatekeep(first, genesis, false).is_ok());
    let head_after_first = get_source_chain_root_hash(&gk.db.downgrade());

    assert!(gk.gatekeep(second, genesis, true).is_ok());
    let head_after_second = get_source_chain_root_hash(&gk.db.downgrade());
    assert_ne!(head_after_second, head_after_first);

    // The rebased suffix is chained onto the head the first caller made:
    // walking back from the new head reaches it, with every hash
    // recomputed.
    let fresh = dht_store::kv_int::KvIntBuffer::<Signed<Header>>::new();
    let last = fresh
        .get(&gk.db.headers, head_after_second.0 as u128)
        .expect("rebased last header stored");
    let prev_of_last = match last.data {
        Header::Create(n) => n.prev_header,
        _ => panic!("unexpected header kind"),
    };
    let first_rebased = fresh
        .get(&gk.db.headers, prev_of_last.0 as u128)
        .expect("rebased first header stored");
    match first_rebased.data {
        Header::Create(n) => assert_eq!(n.prev_header, head_after_first),
        _ => panic!("unexpected header kind"),
    }
    // Content addressing held through the rebase: the stored key is the
    // hash of the rewritten header.
    assert_eq!(hash_header(&first_rebased.data), prev_of_last);
    assert_eq!(hash_header(&last.data), head_after_second);
}

#[test]
fn empty_append_keeps_head() {
    let genesis = Address(1000);
    let mut gk = ChainRootGatekeeper::new(LmdbUnique::new(genesis));
    let txn = LmdbTransaction { base: genesis, headers: Vec::new() };
    assert!(gk.gatekeep(txn, genesis, false).is_ok());
    assert_eq!(get_source_chain_root_hash(&gk.db.downgrade()), genesis);
}
