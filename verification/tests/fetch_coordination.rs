use forgejo_ssp::error::AppError;
use forgejo_ssp::fetching::{FetchingManager, FetchingStatus};
use forgejo_ssp::repo::RequestedRepo;

fn repo(user: &str, name: &str) -> RequestedRepo {
    RequestedRepo { user: user.to_string(), repo: name.to_string() }
}

#[test]
fn second_start_does_not_start_another_fetch() {
    let mut m: FetchingManager<u32> = FetchingManager::new();
    let r = repo("alice", "blog");
    assert!(!m.is_fetching(&r));
    assert!(m.start_fetch(r.clone()));
    assert!(m.is_fetching(&r));
    assert!(!m.start_fetch(r.clone()));
    assert!(m.is_fetching(&r));
}

#[test]
fn waiters_are_released_in_order() {
    let mut m: FetchingManager<u32> = FetchingManager::new();
    let r = repo("alice", "blog");
    assert!(m.start_fetch(r.clone()));
    m.add_callback(r.clone(), 1);
    m.add_callback(r.clone(), 2);
    let (notified, outcome) = m.finish_fetch(r.clone(), Ok(()));
    assert_eq!(notified, vec![1, 2]);
    assert_eq!(outcome, Ok(()));
    assert!(m.get_callbacks(r.clone()).is_empty());
}

#[test]
fn waiter_sees_the_fetch_outcome() {
    let mut m: FetchingManager<u32> = FetchingManager::new();
    let r = repo("alice", "blog");
    assert!(m.start_fetch(r.clone()));
    m.add_callback(r.clone(), 7);
    let (notified, outcome) = m.finish_fetch(r.clone(), Err(AppError::NotFound));
    assert_eq!(notified, vec![7]);
    assert_eq!(outcome, Err(AppError::NotFound));
    assert_eq!(m.joined_result(&r), Err(AppError::NotFound));
    assert_eq!(m.is_failed(&r), Some(AppError::NotFound));
    assert!(!m.is_fetching(&r));
}

#[test]
fn failed_fetch_can_be_retried() {
    let mut m: FetchingManager<u32> = FetchingManager::new();
    let r = repo("alice", "blog");
    assert!(m.start_fetch(r.clone()));
    m.finish_fetch(r.clone(), Err(AppError::InternalError));
    assert!(m.start_fetch(r.clone()));
    let (_, outcome) = m.finish_fetch(r.clone(), Ok(()));
    assert_eq!(outcome, Ok(()));
    assert_eq!(m.joined_result(&r), Ok(()));
    assert_eq!(m.is_failed(&r), None);
}

#[test]
fn repositories_are_independent() {
    let mut m: FetchingManager<u32> = FetchingManager::new();
    let a = repo("alice", "blog");
    let b = repo("bob", "blog");
    assert!(m.start_fetch(a.clone()));
    m.add_callback(b.clone(), 3);
    assert!(!m.is_fetching(&b));
    assert!(m.start_fetch(b.clone()));
    m.add_callback(a.clone(), 4);
    let (na, _) = m.finish_fetch(a.clone(), Err(AppError::InternalError));
    assert_eq!(na, vec![4]);
    assert!(m.is_fetching(&b));
    assert_eq!(m.is_failed(&b), None);
    assert_eq!(m.get_callbacks(b.clone()), vec![3]);
}

#[test]
fn set_status_overwrites() {
    let mut m: FetchingManager<u32> = FetchingManager::new();
    let r = repo("alice", "blog");
    m.set_status(r.clone(), FetchingStatus::Failed(AppError::InvalidRequest));
    assert_eq!(m.is_failed(&r), Some(AppError::InvalidRequest));
    m.set_status(r.clone(), FetchingStatus::Idle);
    assert_eq!(m.is_failed(&r), None);
    assert!(!m.is_fetching(&r));
    assert_eq!(FetchingStatus::default(), FetchingStatus::Idle);
}

#[test]
fn many_registrations_come_back_in_order() {
    let mut m: FetchingManager<u32> = FetchingManager::new();
    let r = repo("alice", "blog");
    for w in 1..=5 {
        m.add_callback(r.clone(), w);
    }
    assert_eq!(m.get_callbacks(r.clone()), vec![1, 2, 3, 4, 5]);
    assert!(m.get_callbacks(r.clone()).is_empty());
}

#[test]
fn waiter_whose_wakeup_was_dropped_gets_internal_error() {
    let mut m: FetchingManager<u32> = FetchingManager::new();
    let r = repo("alice", "blog");
    assert!(m.start_fetch(r.clone()));
    m.finish_fetch(r.clone(), Err(AppError::NotFound));
    assert_eq!(m.waited_result(&r, false), Err(AppError::InternalError));
    assert_eq!(m.waited_result(&r, true), Err(AppError::NotFound));
    m.set_status(r.clone(), FetchingStatus::Idle);
    assert_eq!(m.waited_result(&r, true), Ok(()));
}
