use backend::compute_pool::{pool_thread_count, worker_thread_count};

#[test]
fn pool_keeps_one_cpu_free() {
    assert_eq!(worker_thread_count(0), 2);
    assert_eq!(worker_thread_count(1), 2);
    assert_eq!(worker_thread_count(3), 2);
    assert_eq!(worker_thread_count(4), 3);
    assert_eq!(worker_thread_count(16), 15);
}

#[test]
fn pool_has_at_least_two_workers() {
    assert!(pool_thread_count() >= 2);
}
