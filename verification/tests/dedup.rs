use twitch_notifier::dedup::DedupCache;

const HOUR: u64 = 3_600_000;

#[test]
fn unknown_id_is_not_seen() {
    let cache = DedupCache::new();
    assert!(!cache.seen(b"id-1", 0));
}

#[test]
fn recorded_id_is_seen_until_its_deadline() {
    let mut cache = DedupCache::new();
    cache.record(b"id-1".to_vec(), 1_000, HOUR);
    assert!(cache.seen(b"id-1", 1_000));
    assert!(cache.seen(b"id-1", 1_000 + HOUR - 1));
    assert!(cache.seen(b"id-1", 1_000 + HOUR));
    assert!(!cache.seen(b"id-1", 1_000 + HOUR + 1));
    assert!(!cache.seen(b"id-2", 1_000));
}

#[test]
fn record_if_absent_is_true_once_within_ttl() {
    let mut cache = DedupCache::new();
    assert!(cache.record_if_absent(b"id-1", 10, HOUR));
    assert!(!cache.record_if_absent(b"id-1", 10, HOUR));
    assert!(!cache.record_if_absent(b"id-1", 10 + HOUR, HOUR));
    assert!(cache.record_if_absent(b"id-2", 10, HOUR));
}

#[test]
fn record_if_absent_is_true_again_after_ttl() {
    let mut cache = DedupCache::new();
    assert!(cache.record_if_absent(b"id-1", 10, HOUR));
    assert!(cache.record_if_absent(b"id-1", 11 + HOUR, HOUR));
    assert!(!cache.record_if_absent(b"id-1", 12 + HOUR, HOUR));
}

#[test]
fn duplicate_does_not_extend_the_window() {
    let mut cache = DedupCache::new();
    assert!(cache.record_if_absent(b"id-1", 0, 100));
    assert!(!cache.record_if_absent(b"id-1", 90, 100));
    assert!(!cache.seen(b"id-1", 101));
}

#[test]
fn sweep_keeps_what_is_live() {
    let mut cache = DedupCache::new();
    cache.record(b"short".to_vec(), 0, 10);
    cache.record(b"long".to_vec(), 0, 1_000);
    cache.sweep(500);
    assert!(cache.seen(b"long", 500));
    assert!(cache.seen(b"long", 1_000));
    assert!(!cache.seen(b"short", 500));
    assert!(!cache.record_if_absent(b"long", 600, 10));
    assert!(cache.record_if_absent(b"short", 600, 10));
}

#[test]
fn sweep_at_the_deadline_keeps_the_record() {
    let mut cache = DedupCache::new();
    cache.record(b"id-1".to_vec(), 0, 10);
    cache.sweep(10);
    assert!(cache.seen(b"id-1", 10));
    cache.sweep(11);
    assert!(!cache.seen(b"id-1", 10));
}

#[test]
fn expiry_does_not_depend_on_sweep_timing() {
    for swept_at in [0u64, 5, 10, 11, 50] {
        let mut cache = DedupCache::new();
        assert!(cache.record_if_absent(b"id-1", 0, 10));
        cache.sweep(swept_at);
        assert!(cache.record_if_absent(b"id-1", 50, 10));
    }
    for swept_at in [0u64, 3, 7] {
        let mut cache = DedupCache::new();
        assert!(cache.record_if_absent(b"id-1", 0, 10));
        cache.sweep(swept_at);
        assert!(!cache.record_if_absent(b"id-1", 7, 10));
    }
}

#[test]
fn deadline_saturates_at_the_end_of_the_clock() {
    let mut cache = DedupCache::new();
    cache.record(b"id-1".to_vec(), u64::MAX - 5, 100);
    assert!(cache.seen(b"id-1", u64::MAX));
}

#[test]
fn empty_id_is_an_id() {
    let mut cache = DedupCache::new();
    assert!(cache.record_if_absent(b"", 0, 10));
    assert!(!cache.record_if_absent(b"", 1, 10));
    assert!(!cache.seen(b"x", 1));
}
