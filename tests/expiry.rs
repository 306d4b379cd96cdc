use polly::expiry::{
    bulk_cutoff, expiry_cutoff, older_prefix_len, plan_page, split_for_deletion, StoredMessage,
    BULK_DELETE_MAX_AGE_MS, DAY_MS,
};

fn page(timestamps: &[i64]) -> Vec<StoredMessage> {
    timestamps
        .iter()
        .enumerate()
        .map(|(i, &t)| StoredMessage { id: i as u64 + 1, timestamp: t })
        .collect()
}

#[test]
fn boundary_selects_first_k_plus_one() {
    let ts: Vec<i64> = (0..100).map(|i| 1_000 + 10 * i).collect();
    // t41 = 1410 < cutoff = 1415 <= t42 = 1420.
    let plan = plan_page(page(&ts), 1_415);
    assert_eq!(plan.expired, 42);
    assert!(!plan.fetch_again);
    let deleted: Vec<u64> = plan.ordered[..plan.expired].iter().map(|m| m.id).collect();
    assert_eq!(deleted, (1..=42).collect::<Vec<u64>>());
}

#[test]
fn cutoff_equal_to_next_timestamp_keeps_it() {
    let ts: Vec<i64> = (0..100).map(|i| 1_000 + 10 * i).collect();
    let plan = plan_page(page(&ts), 1_420);
    assert_eq!(plan.expired, 42);
}

#[test]
fn full_page_of_expired_fetches_again() {
    let ts: Vec<i64> = (0..100).map(|i| 1_000 + i).collect();
    let plan = plan_page(page(&ts), 5_000);
    assert_eq!(plan.expired, 100);
    assert!(plan.fetch_again);
}

#[test]
fn nothing_expired_stops() {
    let plan = plan_page(page(&[500, 600, 700]), 100);
    assert_eq!(plan.expired, 0);
    assert!(!plan.fetch_again);
}

#[test]
fn empty_page_stops() {
    let plan = plan_page(Vec::new(), 100);
    assert_eq!(plan.expired, 0);
    assert!(!plan.fetch_again);
}

#[test]
fn unsorted_page_is_sorted_first() {
    let plan = plan_page(page(&[30, 10, 20, 40]), 25);
    let order: Vec<i64> = plan.ordered.iter().map(|m| m.timestamp).collect();
    assert_eq!(order, vec![10, 20, 30, 40]);
    assert_eq!(plan.expired, 2);
    assert_eq!(plan.ordered[0].id, 2);
    assert_eq!(plan.ordered[1].id, 3);
}

#[test]
fn older_prefix_len_on_sorted_slice() {
    let msgs = page(&[1, 2, 3, 3, 3, 9]);
    assert_eq!(older_prefix_len(&msgs, 3), 2);
    assert_eq!(older_prefix_len(&msgs, 4), 5);
    assert_eq!(older_prefix_len(&msgs, 0), 0);
    assert_eq!(older_prefix_len(&msgs, 100), 6);
}

#[test]
fn cutoffs_are_exact() {
    assert_eq!(BULK_DELETE_MAX_AGE_MS, 1_209_540_000);
    assert_eq!(expiry_cutoff(10_000, 2_500), 7_500);
    assert_eq!(expiry_cutoff(i64::MIN + 5, 10), i64::MIN);
    assert_eq!(bulk_cutoff(2_000_000_000_000), 2_000_000_000_000 - 14 * DAY_MS + 60_000);
}

#[test]
fn split_at_batch_age_limit() {
    let now: i64 = 100 * DAY_MS;
    let limit = now - BULK_DELETE_MAX_AGE_MS;
    let msgs = page(&[limit - 2_000, limit - 1, limit, limit + 5, now - 1]);
    let split = split_for_deletion(&msgs, now);
    assert_eq!(split.individually, vec![1, 2]);
    assert_eq!(split.batched, vec![3, 4, 5]);
    let mut all = split.individually.clone();
    all.extend(split.batched.iter());
    assert_eq!(all, vec![1, 2, 3, 4, 5]);
}

#[test]
fn split_all_recent_is_one_batch() {
    let now: i64 = 100 * DAY_MS;
    let msgs = page(&[now - 3, now - 2, now - 1]);
    let split = split_for_deletion(&msgs, now);
    assert!(split.individually.is_empty());
    assert_eq!(split.batched, vec![1, 2, 3]);
}
