use forgejo_ssp::meta::{current_time_seconds, use_cached_checkout, RepoMeta, CACHE_TTL_SECS};

#[test]
fn refreshed_checkout_is_fresh_for_an_hour() {
    let meta = RepoMeta::refreshed_at(None, 1_000);
    assert_eq!(meta, RepoMeta { created_at: 1_000, updated_at: 1_000 });
    assert_eq!(meta.seconds_since_updated_at(1_000), 0);
    assert!(meta.is_fresh_at(1_000));
    assert!(meta.is_fresh_at(1_000 + 3_599));
    assert!(!meta.is_fresh_at(1_000 + 3_600));
    assert_eq!(CACHE_TTL_SECS, 3600);
}

#[test]
fn refresh_keeps_creation_time() {
    let old = RepoMeta { created_at: 5, updated_at: 10 };
    let meta = RepoMeta::refreshed_at(Some(old), 99);
    assert_eq!(meta, RepoMeta { created_at: 5, updated_at: 99 });
    let mut m = old;
    m.update_at(42);
    assert_eq!(m, RepoMeta { created_at: 5, updated_at: 42 });
}

#[test]
fn age_wraps_when_clock_went_back() {
    let meta = RepoMeta::new_at(10);
    assert_eq!(meta.seconds_since_updated_at(15), 5);
    assert_eq!(meta.seconds_since_updated_at(9), u64::MAX);
    assert!(!meta.is_fresh_at(9));
}

#[test]
fn cache_is_used_only_when_present_and_fresh() {
    let fresh = Some(RepoMeta::new_at(100));
    assert!(use_cached_checkout(true, &fresh, 100 + 10));
    assert!(!use_cached_checkout(false, &fresh, 100 + 10));
    assert!(!use_cached_checkout(true, &None, 100));
    assert!(!use_cached_checkout(true, &fresh, 100 + 4000));
}

#[test]
fn clock_readings_are_recent() {
    let now = current_time_seconds().unwrap();
    assert!(now > 1_600_000_000);
    let fresh = RepoMeta::refreshed(None).unwrap();
    assert_eq!(fresh.created_at, fresh.updated_at);
    assert!(fresh.created_at >= now);
    assert_eq!(fresh.is_fresh(), Some(true));
    assert!(fresh.seconds_since_updated().unwrap() < 60);
    let mut m = RepoMeta::new_at(7);
    let reading = m.update().unwrap();
    assert_eq!(m, RepoMeta { created_at: 7, updated_at: reading });
    assert!(reading >= now);
    let kept = RepoMeta::refreshed(Some(RepoMeta::new_at(3))).unwrap();
    assert_eq!(kept.created_at, 3);
    assert!(kept.updated_at >= now);
}
