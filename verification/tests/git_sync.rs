use forgejo_ssp::error::AppError;
use forgejo_ssp::sync::{GitSync, SyncAction};

fn start(exists: bool) -> (GitSync, SyncAction) {
    GitSync::start("https://git.example/alice/blog.git".to_string(), "pages".to_string(), exists)
}

fn finish_of(action: SyncAction) -> Result<(), AppError> {
    match action {
        SyncAction::Finish(outcome) => outcome,
        other => panic!("expected Finish, got {:?}", other),
    }
}

#[test]
fn existing_checkout_is_fetched_then_checked_out() {
    let (mut sync, first) = start(true);
    assert!(matches!(first, SyncAction::OpenAndFetch { ref branch } if branch == "pages"));
    let a = sync.advance(true);
    assert!(matches!(a, SyncAction::ResolveBranch { ref spec } if spec == "origin/pages"));
    assert!(matches!(sync.advance(true), SyncAction::Checkout));
    let a = sync.advance(true);
    assert!(matches!(a, SyncAction::SetHead { ref reference } if reference == "refs/heads/pages"));
    assert_eq!(finish_of(sync.advance(true)), Ok(()));
    assert_eq!(finish_of(sync.advance(false)), Ok(()));
}

#[test]
fn missing_checkout_is_cloned() {
    let (mut sync, first) = start(false);
    assert!(matches!(first, SyncAction::Clone { ref url } if url == "https://git.example/alice/blog.git"));
    assert_eq!(finish_of(sync.advance(false)), Err(AppError::InternalError));
}

#[test]
fn missing_branch_removes_checkout_and_is_not_found() {
    let (mut sync, _) = start(false);
    sync.advance(true);
    assert!(matches!(sync.advance(false), SyncAction::RemoveCheckout));
    assert_eq!(finish_of(sync.advance(true)), Err(AppError::NotFound));
    let (mut sync, _) = start(true);
    sync.advance(true);
    sync.advance(false);
    assert_eq!(finish_of(sync.advance(false)), Err(AppError::InternalError));
}

#[test]
fn failed_checkout_or_head_removes_and_is_internal_error() {
    let (mut sync, _) = start(true);
    sync.advance(true);
    sync.advance(true);
    assert!(matches!(sync.advance(false), SyncAction::RemoveCheckout));
    assert_eq!(finish_of(sync.advance(true)), Err(AppError::InternalError));
    let (mut sync, _) = start(true);
    sync.advance(true);
    sync.advance(true);
    sync.advance(true);
    assert!(matches!(sync.advance(false), SyncAction::RemoveCheckout));
    assert_eq!(finish_of(sync.advance(true)), Err(AppError::InternalError));
}
