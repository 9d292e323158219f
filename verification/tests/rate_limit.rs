use haircut_backend::rate_limit::{check_rate_limit, check_rate_limit_at, retain_recent, RateLimitStore};
use std::time::{SystemTime, UNIX_EPOCH};

fn test_ip() -> &'static str {
    "127.0.0.1"
}

fn now_secs() -> u64 {
    SystemTime::now().duration_since(UNIX_EPOCH).unwrap().as_secs()
}

#[test]
fn test_rate_limit_under_limit() {
    let mut store = RateLimitStore::new();
    let ip = test_ip();

    // Should allow first 10 requests
    for _ in 0..10 {
        assert!(check_rate_limit(&mut store, ip));
    }
}

#[test]
fn test_rate_limit_over_limit() {
    let mut store = RateLimitStore::new();
    let ip = test_ip();

    // Make 10 requests (should all pass)
    for _ in 0..10 {
        assert!(check_rate_limit(&mut store, ip));
    }

    // 11th request should be blocked
    assert!(!check_rate_limit(&mut store, ip));
}

#[test]
fn test_rate_limit_different_ips() {
    let mut store = RateLimitStore::new();
    let ip1 = "127.0.0.1";
    let ip2 = "127.0.0.2";

    // Make 10 requests with IP1 (should all pass)
    for _ in 0..10 {
        assert!(check_rate_limit(&mut store, ip1));
    }

    // IP1 should now be blocked
    assert!(!check_rate_limit(&mut store, ip1));

    // IP2 should still be able to make requests
    for _ in 0..10 {
        assert!(check_rate_limit(&mut store, ip2));
    }

    // Now IP2 should also be blocked
    assert!(!check_rate_limit(&mut store, ip2));
}

#[test]
fn test_rate_limit_cleanup() {
    let mut store = RateLimitStore::new();
    let ip = test_ip();

    // Simulate old timestamps (61 seconds ago)
    let old_timestamp = now_secs() - 61;
    store.insert(ip, vec![old_timestamp; 10]);

    // Should allow new requests since old ones are cleaned up
    assert!(check_rate_limit(&mut store, ip));
}

#[test]
fn test_rate_limit_integration() {
    let mut store = RateLimitStore::new();
    let ip = test_ip();

    // Simulate rapid requests
    for i in 0..15 {
        let allowed = check_rate_limit(&mut store, ip);
        if i < 10 {
            assert!(allowed, "Request {} should be allowed", i + 1);
        } else {
            assert!(!allowed, "Request {} should be blocked", i + 1);
        }
    }
}

#[test]
fn clock_reads_the_present() {
    // Ten stamps of this very second fill the window, so the clock cannot be
    // far behind; ten stamps of a minute ago do not, so it cannot stand still
    // at the epoch either.
    let mut store = RateLimitStore::new();
    store.insert("a", vec![now_secs(); 10]);
    assert!(!check_rate_limit(&mut store, "a"));
    store.insert("b", vec![now_secs() - 120; 10]);
    assert!(check_rate_limit(&mut store, "b"));
}

#[test]
fn tenth_granted_eleventh_refused_within_window() {
    let mut store = RateLimitStore::new();
    for i in 0..10u64 {
        assert!(check_rate_limit_at(&mut store, "c", 1000 + i));
    }
    // the window that ends at 1059 still holds all ten
    assert!(!check_rate_limit_at(&mut store, "c", 1059));
    assert_eq!(store.stamps("c"), (1000..1010).collect::<Vec<u64>>());
}

#[test]
fn refused_request_leaves_no_stamp_but_prunes() {
    let mut store = RateLimitStore::new();
    store.insert("c", vec![10, 100, 101, 102, 103, 104, 105, 106, 107, 108, 109]);
    assert!(!check_rate_limit_at(&mut store, "c", 120));
    assert_eq!(store.stamps("c"), vec![100, 101, 102, 103, 104, 105, 106, 107, 108, 109]);
}

#[test]
fn window_slides_one_stamp_at_a_time() {
    let mut store = RateLimitStore::new();
    for i in 0..10u64 {
        assert!(check_rate_limit_at(&mut store, "c", 1000 + i));
    }
    // at 1060 only the stamp of 1000 has aged out: 60 seconds is not less than 60
    assert!(check_rate_limit_at(&mut store, "c", 1060));
    assert!(!check_rate_limit_at(&mut store, "c", 1060));
    assert!(check_rate_limit_at(&mut store, "c", 1061));
    let mut expected: Vec<u64> = (1002..1010).collect();
    expected.push(1060);
    expected.push(1061);
    assert_eq!(store.stamps("c"), expected);
}

#[test]
fn aged_record_is_granted_whatever_its_size() {
    let mut store = RateLimitStore::new();
    store.insert("c", vec![5; 1000]);
    assert!(check_rate_limit_at(&mut store, "c", 65));
    assert_eq!(store.stamps("c"), vec![65]);
}

#[test]
fn stamp_exactly_at_window_edge() {
    assert_eq!(retain_recent(&vec![40, 41, 100], 100), vec![41, 100]);
    assert_eq!(retain_recent(&vec![0], 59), vec![0]);
    assert_eq!(retain_recent(&vec![0], 60), Vec::<u64>::new());
}

#[test]
fn stamp_after_now_counts() {
    assert_eq!(retain_recent(&vec![500, u64::MAX], 100), vec![500, u64::MAX]);
    let mut store = RateLimitStore::new();
    store.insert("c", vec![500; 10]);
    assert!(!check_rate_limit_at(&mut store, "c", 100));
}

#[test]
fn clients_are_counted_apart() {
    let mut store = RateLimitStore::new();
    for _ in 0..10 {
        assert!(check_rate_limit_at(&mut store, "a", 7));
    }
    assert!(!check_rate_limit_at(&mut store, "a", 7));
    assert_eq!(store.stamps("b"), Vec::<u64>::new());
    assert!(check_rate_limit_at(&mut store, "b", 7));
    assert_eq!(store.stamps("b"), vec![7]);
    assert_eq!(store.stamps("a"), vec![7; 10]);
    // a key is taken letter for letter
    assert!(check_rate_limit_at(&mut store, "A", 7));
    assert!(check_rate_limit_at(&mut store, "a ", 7));
}

#[test]
fn new_store_has_no_records() {
    let store = RateLimitStore::new();
    assert_eq!(store.stamps(""), Vec::<u64>::new());
    assert_eq!(store.stamps("127.0.0.1"), Vec::<u64>::new());
}

#[test]
fn insert_replaces_the_record() {
    let mut store = RateLimitStore::new();
    store.insert("c", vec![1, 2, 3]);
    store.insert("c", vec![9]);
    assert_eq!(store.stamps("c"), vec![9]);
}
