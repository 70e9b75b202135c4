use netsync::buffer::{InsertOutcome, TimestampedRingBuffer};

#[test]
fn out_of_order_inserts_sort_to_monotonic_keys() {
    // capacity 3, keys [5, 1, 3, 7]: inserting 7 evicts the oldest key (1),
    // and sorting leaves [3, 5, 7]
    let mut buf: TimestampedRingBuffer<u64> = TimestampedRingBuffer::new(3);
    assert_eq!(buf.insert(5, 50), InsertOutcome::Inserted);
    assert_eq!(buf.insert(1, 10), InsertOutcome::Inserted);
    assert_eq!(buf.insert(3, 30), InsertOutcome::Inserted);
    assert_eq!(buf.insert(7, 70), InsertOutcome::Inserted);
    buf.sort();
    assert_eq!(buf.len(), 3);
    let keys: Vec<u64> = (0..3).map(|i| buf.get(i).unwrap().key).collect();
    assert_eq!(keys, vec![3, 5, 7]);
    let latest = buf.latest().unwrap();
    assert_eq!(latest.key, 7);
    assert_eq!(latest.value, 70);
}

#[test]
fn sorted_keys_strictly_increase_after_random_inserts() {
    let mut buf: TimestampedRingBuffer<u64> = TimestampedRingBuffer::new(8);
    for key in [12u64, 3, 9, 1, 15, 7, 4, 11, 2, 14] {
        buf.insert(key, key * 10);
    }
    buf.sort();
    for i in 1..buf.len() {
        assert!(buf.get(i - 1).unwrap().key < buf.get(i).unwrap().key);
    }
}

#[test]
fn capacity_is_never_exceeded_and_newest_keys_are_kept() {
    let mut buf: TimestampedRingBuffer<u64> = TimestampedRingBuffer::new(3);
    for key in 0..10u64 {
        buf.insert(key, key);
        assert!(buf.len() <= 3);
    }
    buf.sort();
    let keys: Vec<u64> = (0..3).map(|i| buf.get(i).unwrap().key).collect();
    assert_eq!(keys, vec![7, 8, 9]);
}

#[test]
fn duplicate_key_is_a_stale_insert() {
    let mut buf: TimestampedRingBuffer<u64> = TimestampedRingBuffer::new(4);
    assert_eq!(buf.insert(5, 1), InsertOutcome::Inserted);
    assert_eq!(buf.insert(5, 2), InsertOutcome::StaleInsert);
    assert_eq!(buf.len(), 1);
    assert_eq!(buf.latest().unwrap().value, 1);
}

#[test]
fn too_old_key_on_full_buffer_is_a_stale_insert() {
    let mut buf: TimestampedRingBuffer<u64> = TimestampedRingBuffer::new(2);
    buf.insert(10, 0);
    buf.insert(20, 0);
    assert_eq!(buf.insert(5, 0), InsertOutcome::StaleInsert);
    assert_eq!(buf.len(), 2);
    buf.sort();
    assert_eq!(buf.get(0).unwrap().key, 10);
    assert_eq!(buf.get(1).unwrap().key, 20);
}

#[test]
fn find_at_or_before_picks_the_greatest_qualifying_key() {
    let mut buf: TimestampedRingBuffer<u64> = TimestampedRingBuffer::new(4);
    buf.insert(3, 33);
    buf.insert(5, 55);
    buf.insert(7, 77);
    assert_eq!(buf.find_at_or_before(4).unwrap().key, 3);
    assert_eq!(buf.find_at_or_before(5).unwrap().key, 5);
    assert_eq!(buf.find_at_or_before(100).unwrap().key, 7);
    // buffer starvation: everything retained is newer than the reference
    assert!(buf.find_at_or_before(2).is_none());
}

#[test]
fn find_at_or_before_on_empty_buffer_is_none() {
    let buf: TimestampedRingBuffer<u64> = TimestampedRingBuffer::new(2);
    assert!(buf.find_at_or_before(10).is_none());
    assert!(buf.latest().is_none());
}

#[test]
fn frontier_returns_entries_strictly_after_the_key_in_order() {
    let mut buf: TimestampedRingBuffer<u64> = TimestampedRingBuffer::new(8);
    for key in [4u64, 1, 3, 2] {
        buf.insert(key, key * 100);
    }
    buf.sort();
    let frontier = buf.frontier(2);
    let keys: Vec<u64> = frontier.iter().map(|e| e.key).collect();
    assert_eq!(keys, vec![3, 4]);
    assert!(buf.frontier(4).is_empty());
    let all = buf.frontier(0);
    assert_eq!(all.len(), 4);
    assert_eq!(all[0].key, 1);
    assert_eq!(all[3].value, 400);
}

#[test]
fn a_capacity_one_buffer_keeps_only_the_newest_key() {
    let mut buf: TimestampedRingBuffer<u64> = TimestampedRingBuffer::new(1);
    assert_eq!(buf.insert(1, 10), InsertOutcome::Inserted);
    assert_eq!(buf.insert(3, 30), InsertOutcome::Inserted);
    assert_eq!(buf.insert(2, 20), InsertOutcome::StaleInsert);
    assert_eq!(buf.len(), 1);
    assert_eq!(buf.latest().unwrap().key, 3);
}
