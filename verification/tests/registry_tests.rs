use pixel_canvas::broadcast::plan_broadcast;
use pixel_canvas::registry::ClientRegistry;

#[test]
fn register_hands_out_fresh_increasing_ids() {
    let mut r = ClientRegistry::new();
    assert_eq!(r.register(), 0);
    assert_eq!(r.register(), 1);
    assert_eq!(r.register(), 2);
    assert_eq!(r.count(), 3);
    assert_eq!(r.entries(), vec![0, 1, 2]);
}

#[test]
fn unregister_removes_only_that_client() {
    let mut r = ClientRegistry::new();
    r.register();
    r.register();
    r.register();
    r.unregister(1);
    assert_eq!(r.count(), 2);
    assert!(r.contains(0));
    assert!(!r.contains(1));
    assert!(r.contains(2));
    // ids are never reused after a disconnect
    assert_eq!(r.register(), 3);
}

#[test]
fn unregister_absent_id_is_a_no_op() {
    let mut r = ClientRegistry::new();
    r.register();
    r.unregister(42);
    assert_eq!(r.count(), 1);
    assert!(r.contains(0));
}

#[test]
fn broadcast_skip_sender_reaches_every_other_client_once() {
    // clients 0 (the sender), 1, 2, all handles open
    let entries = vec![(0u64, false), (1u64, false), (2u64, false)];
    let (recipients, evicted) = plan_broadcast(&entries, 0, true);
    assert_eq!(recipients, vec![1, 2]);
    assert!(evicted.is_empty());
}

#[test]
fn broadcast_without_skip_also_reaches_the_sender() {
    let entries = vec![(0u64, false), (1u64, false), (2u64, false)];
    let (recipients, evicted) = plan_broadcast(&entries, 0, false);
    assert_eq!(recipients, vec![0, 1, 2]);
    assert!(evicted.is_empty());
}

#[test]
fn broadcast_evicts_closed_handles_and_skips_them() {
    let entries = vec![(0u64, false), (1u64, true), (2u64, false), (3u64, true)];
    let (recipients, evicted) = plan_broadcast(&entries, 0, true);
    assert_eq!(recipients, vec![2]);
    assert_eq!(evicted, vec![1, 3]);

    let (recipients, evicted) = plan_broadcast(&entries, 0, false);
    assert_eq!(recipients, vec![0, 2]);
    assert_eq!(evicted, vec![1, 3]);
}

#[test]
fn broadcast_skips_sender_even_when_closed_set_is_empty() {
    let entries = vec![(7u64, false)];
    let (recipients, evicted) = plan_broadcast(&entries, 7, true);
    assert!(recipients.is_empty());
    assert!(evicted.is_empty());
}
