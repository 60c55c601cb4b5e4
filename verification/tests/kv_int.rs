//! The buffered key-value store against its persisted table: iteration
//! order, the scratch overlay, and the flush boundary.

use dht_store::key_encoding::be_bytes;
use dht_store::key_encoding::from_be_bytes;
use dht_store::kv_int::KvIntBuffer;
use dht_store::table::Table;

#[test]
fn kv_iterators() {
    let mut table: Table<u32> = Table::new();
    let mut buf: KvIntBuffer<u32> = KvIntBuffer::new();

    buf.put(1, 1);
    buf.put(2, 2);
    buf.put(3, 3);
    buf.put(4, 4);
    buf.put(5, 5);

    buf.flush_to_txn(&mut table);

    let buf: KvIntBuffer<u32> = KvIntBuffer::new();
    let forward = buf.iter_raw(&table);
    let reverse = buf.iter_raw_reverse(&table);

    assert_eq!(forward, vec![(1, 1), (2, 2), (3, 3), (4, 4), (5, 5)]);
    assert_eq!(reverse, vec![(5, 5), (4, 4), (3, 3), (2, 2), (1, 1)]);
}

#[test]
fn kv_empty_iterators() {
    let table: Table<u32> = Table::new();
    let buf: KvIntBuffer<u32> = KvIntBuffer::new();

    let forward = buf.iter_raw(&table);
    let reverse = buf.iter_raw_reverse(&table);

    assert_eq!(forward, vec![]);
    assert_eq!(reverse, vec![]);
}

#[test]
fn kv_put_get_before_flush_and_after() {
    let mut table: Table<u32> = Table::new();
    let mut buf: KvIntBuffer<u32> = KvIntBuffer::new();

    // A put is visible to a get before any flush.
    buf.put(7, 70);
    assert_eq!(buf.get(&table, 7), Some(70));

    // Raw iteration reads only the persisted layer, so it does not see the
    // buffered put.
    assert_eq!(buf.iter_raw(&table), vec![]);

    // After the flush, a freshly constructed buffer over the same persisted
    // store answers the value.
    buf.flush_to_txn(&mut table);
    let fresh: KvIntBuffer<u32> = KvIntBuffer::new();
    assert_eq!(fresh.get(&table, 7), Some(70));
    assert_eq!(fresh.iter_raw(&table), vec![(7, 70)]);
}

#[test]
fn kv_delete_shadows_persisted_value() {
    let mut table: Table<u32> = Table::new();
    let mut buf: KvIntBuffer<u32> = KvIntBuffer::new();
    buf.put(1, 10);
    buf.flush_to_txn(&mut table);

    let mut buf: KvIntBuffer<u32> = KvIntBuffer::new();
    assert_eq!(buf.get(&table, 1), Some(10));
    buf.delete(1);
    // The delete shadows the persisted row with absence before the flush.
    assert_eq!(buf.get(&table, 1), None);
    // The persisted layer still holds it until the flush.
    assert_eq!(buf.iter_raw(&table), vec![(1, 10)]);
    buf.flush_to_txn(&mut table);
    let fresh: KvIntBuffer<u32> = KvIntBuffer::new();
    assert_eq!(fresh.get(&table, 1), None);
    assert_eq!(fresh.iter_raw(&table), vec![]);
}

#[test]
fn kv_merged_rows_sees_overlay() {
    let mut table: Table<u32> = Table::new();
    let mut setup: KvIntBuffer<u32> = KvIntBuffer::new();
    setup.put(1, 10);
    setup.put(2, 20);
    setup.flush_to_txn(&mut table);

    let mut buf: KvIntBuffer<u32> = KvIntBuffer::new();
    buf.put(2, 22);
    buf.delete(1);
    buf.put(3, 30);
    let mut merged = buf.merged_rows(&table);
    merged.sort();
    assert_eq!(merged, vec![(2, 22), (3, 30)]);
}

#[test]
fn key_encoding_round_trip_and_order() {
    let k = 0x0123456789abcdefu64;
    let b = be_bytes(k);
    assert_eq!(b, vec![0x01, 0x23, 0x45, 0x67, 0x89, 0xab, 0xcd, 0xef]);
    assert_eq!(from_be_bytes(&b), Some(k));
    // Byte-wise comparison of encoded keys is numeric comparison of keys.
    assert!(be_bytes(0x0100) > be_bytes(0x00ff));
    assert!(be_bytes(7) < be_bytes(8));
    // Anything but exactly eight bytes is malformed.
    assert_eq!(from_be_bytes(&vec![1, 2, 3]), None);
}
