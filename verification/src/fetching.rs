//! Coordination of fetches: at most one fetch of a repository runs at a time;
//! requests that arrive meanwhile wait for it and share its outcome.
//!
//! The manager records, per repository, the fetch status and the waiters to
//! notify when the running fetch ends. It is generic over the waiter, so that
//! the service can keep whatever wakes a waiting request in it.
use vstd::prelude::*;

use crate::error::AppError;
use crate::repo::{RepoKey, RequestedRepo};

verus! {

/// Where fetching a repository stands.
#[derive(Debug, Clone, Copy, PartialEq, Eq, Structural, PartialOrd, Ord)]
pub enum FetchingStatus {
    Idle,
    Fetching,
    Failed(AppError),
}

impl Default for FetchingStatus {
    fn default() -> (status: FetchingStatus)
        ensures
            status == FetchingStatus::Idle,
    {
        FetchingStatus::Idle
    }
}

/// The status that a fetch with this outcome leaves behind.
pub open spec fn status_after(outcome: Result<(), AppError>) -> FetchingStatus {
    match outcome {
        Ok(()) => FetchingStatus::Idle,
        Err(e) => FetchingStatus::Failed(e),
    }
}

/// What a request that waited on a fetch answers, given the status it finds.
pub open spec fn outcome_seen(status: FetchingStatus) -> Result<(), AppError> {
    match status {
        FetchingStatus::Failed(e) => Err(e),
        _ => Ok(()),
    }
}

/// No repository occurs twice among the entries.
pub open spec fn keys_unique<T>(entries: Seq<(RequestedRepo, T)>) -> bool {
    forall|i: int, j: int|
        0 <= i < entries.len() && 0 <= j < entries.len() && i != j ==> #[trigger] entries[i].0@
            != #[trigger] entries[j].0@
}

/// Some entry is for `key`.
pub open spec fn has_entry<T>(entries: Seq<(RequestedRepo, T)>, key: RepoKey) -> bool {
    exists|i: int| 0 <= i < entries.len() && #[trigger] entries[i].0@ == key
}

/// The value of the entry for `key`.
pub open spec fn value_of<T>(entries: Seq<(RequestedRepo, T)>, key: RepoKey) -> T {
    entries[choose|i: int| 0 <= i < entries.len() && #[trigger] entries[i].0@ == key].1
}

proof fn lemma_entry_found<T>(entries: Seq<(RequestedRepo, T)>, key: RepoKey, i: int)
    requires
        keys_unique(entries),
        0 <= i < entries.len(),
        entries[i].0@ == key,
    ensures
        has_entry(entries, key),
        value_of(entries, key) == entries[i].1,
{
    let j = choose|j: int| 0 <= j < entries.len() && #[trigger] entries[j].0@ == key;
    assert(entries[j].0@ == entries[i].0@);
}

proof fn lemma_entry_removed<T>(entries: Seq<(RequestedRepo, T)>, i: int)
    requires
        keys_unique(entries),
        0 <= i < entries.len(),
    ensures
        keys_unique(entries.remove(i)),
        !has_entry(entries.remove(i), entries[i].0@),
        forall|k: RepoKey|
            k != entries[i].0@ ==> (has_entry(entries.remove(i), k) == has_entry(entries, k)),
        forall|k: RepoKey|
            k != entries[i].0@ && has_entry(entries, k) ==> value_of(entries.remove(i), k)
                == value_of(entries, k),
{
    let rest = entries.remove(i);
    assert forall|a: int, b: int|
        0 <= a < rest.len() && 0 <= b < rest.len() && a != b implies #[trigger] rest[a].0@
        != #[trigger] rest[b].0@ by {
        let a0 = if a < i { a } else { a + 1 };
        let b0 = if b < i { b } else { b + 1 };
        assert(rest[a] == entries[a0]);
        assert(rest[b] == entries[b0]);
        assert(entries[a0].0@ != entries[b0].0@);
    }
    if has_entry(rest, entries[i].0@) {
        let j = choose|j: int| 0 <= j < rest.len() && #[trigger] rest[j].0@ == entries[i].0@;
        let j0 = if j < i { j } else { j + 1 };
        assert(rest[j] == entries[j0]);
        assert(entries[j0].0@ != entries[i].0@);
    }
    assert forall|k: RepoKey| k != entries[i].0@ implies (has_entry(rest, k) == has_entry(
        entries,
        k,
    )) && (has_entry(entries, k) ==> value_of(rest, k) == value_of(entries, k)) by {
        if has_entry(entries, k) {
            let j = choose|j: int| 0 <= j < entries.len() && #[trigger] entries[j].0@ == k;
            assert(j != i);
            let j1 = if j < i { j } else { j - 1 };
            assert(rest[j1] == entries[j]);
            lemma_entry_found(entries, k, j);
            lemma_entry_found(rest, k, j1);
        }
        if has_entry(rest, k) {
            let j = choose|j: int| 0 <= j < rest.len() && #[trigger] rest[j].0@ == k;
            let j0 = if j < i { j } else { j + 1 };
            assert(rest[j] == entries[j0]);
            assert(entries[j0].0@ == k);
        }
    }
}

proof fn lemma_entry_pushed<T>(entries: Seq<(RequestedRepo, T)>, entry: (RequestedRepo, T))
    requires
        keys_unique(entries),
        !has_entry(entries, entry.0@),
    ensures
        keys_unique(entries.push(entry)),
        has_entry(entries.push(entry), entry.0@),
        value_of(entries.push(entry), entry.0@) == entry.1,
        forall|k: RepoKey|
            k != entry.0@ ==> (has_entry(entries.push(entry), k) == has_entry(entries, k)),
        forall|k: RepoKey|
            k != entry.0@ && has_entry(entries, k) ==> value_of(entries.push(entry), k)
                == value_of(entries, k),
{
    let more = entries.push(entry);
    let n = entries.len() as int;
    assert forall|a: int, b: int|
        0 <= a < more.len() && 0 <= b < more.len() && a != b implies #[trigger] more[a].0@
        != #[trigger] more[b].0@ by {
        if a < n && b < n {
            assert(entries[a].0@ != entries[b].0@);
        } else if a < n {
            assert(more[a] == entries[a]);
        } else {
            assert(more[b] == entries[b]);
        }
    }
    assert(more[n] == entry);
    lemma_entry_found(more, entry.0@, n);
    assert forall|k: RepoKey| k != entry.0@ implies (has_entry(more, k) == has_entry(entries, k))
        && (has_entry(entries, k) ==> value_of(more, k) == value_of(entries, k)) by {
        if has_entry(entries, k) {
            let j = choose|j: int| 0 <= j < entries.len() && #[trigger] entries[j].0@ == k;
            assert(more[j] == entries[j]);
            lemma_entry_found(entries, k, j);
            lemma_entry_found(more, k, j);
        }
        if has_entry(more, k) {
            let j = choose|j: int| 0 <= j < more.len() && #[trigger] more[j].0@ == k;
            assert(j != n);
            assert(more[j] == entries[j]);
        }
    }
}

/// The index of the entry for `repo`, if there is one.
fn find_entry<T>(entries: &Vec<(RequestedRepo, T)>, repo: &RequestedRepo) -> (found: Option<
    usize,
>)
    ensures
        match found {
            Some(i) => i < entries@.len() && entries@[i as int].0@ == repo@,
            None => !has_entry(entries@, repo@),
        },
{
    let mut i: usize = 0;
    while i < entries.len()
        invariant
            i <= entries@.len(),
            forall|j: int| 0 <= j < i ==> #[trigger] entries@[j].0@ != repo@,
        decreases entries@.len() - i,
    {
        if entries[i].0.same_as(repo) {
            return Some(i);
        }
        i = i + 1;
    }
    None
}

/// Takes the entry for `repo` out of `entries`, answering its value.
fn take_entry<T>(entries: &mut Vec<(RequestedRepo, T)>, repo: &RequestedRepo) -> (taken: Option<T>)
    requires
        keys_unique(old(entries)@),
    ensures
        keys_unique(final(entries)@),
        !has_entry(final(entries)@, repo@),
        taken == if has_entry(old(entries)@, repo@) {
            Some(value_of(old(entries)@, repo@))
        } else {
            None
        },
        forall|k: RepoKey|
            k != repo@ ==> #[trigger] has_entry(final(entries)@, k) == has_entry(old(entries)@, k),
        forall|k: RepoKey|
            k != repo@ && has_entry(old(entries)@, k) ==> #[trigger] value_of(final(entries)@, k)
                == value_of(old(entries)@, k),
{
    match find_entry(entries, repo) {
        Some(i) => {
            proof {
                lemma_entry_found(entries@, repo@, i as int);
                lemma_entry_removed(entries@, i as int);
            }
            let (_, value) = entries.remove(i);
            Some(value)
        },
        None => None,
    }
}

/// Adds an entry for `repo`, which has none, with `value`.
fn put_entry<T>(entries: &mut Vec<(RequestedRepo, T)>, repo: RequestedRepo, value: T)
    requires
        keys_unique(old(entries)@),
        !has_entry(old(entries)@, repo@),
    ensures
        keys_unique(final(entries)@),
        has_entry(final(entries)@, repo@),
        value_of(final(entries)@, repo@) == value,
        forall|k: RepoKey|
            k != repo@ ==> #[trigger] has_entry(final(entries)@, k) == has_entry(old(entries)@, k),
        forall|k: RepoKey|
            k != repo@ && has_entry(old(entries)@, k) ==> #[trigger] value_of(final(entries)@, k)
                == value_of(old(entries)@, k),
{
    let ghost entry = (repo, value);
    proof {
        lemma_entry_pushed(entries@, entry);
    }
    entries.push((repo, value));
}

/// Fetch status and waiting requests, per repository.
pub struct FetchingManager<W> {
    status: Vec<(RequestedRepo, FetchingStatus)>,
    callbacks: Vec<(RequestedRepo, Vec<W>)>,
}

impl<W> FetchingManager<W> {
    /// The manager's records are consistent: one record per repository.
    #[verifier::type_invariant]
    spec fn one_record_per_repo(self) -> bool {
        &&& keys_unique(self.status@)
        &&& keys_unique(self.callbacks@)
    }

    /// The fetch status of a repository; `Idle` when none was recorded.
    pub closed spec fn status_of(self, key: RepoKey) -> FetchingStatus {
        if has_entry(self.status@, key) {
            value_of(self.status@, key)
        } else {
            FetchingStatus::Idle
        }
    }

    /// The requests waiting on a repository's fetch, oldest first.
    pub closed spec fn callbacks_of(self, key: RepoKey) -> Seq<W> {
        if has_entry(self.callbacks@, key) {
            value_of(self.callbacks@, key)@
        } else {
            Seq::empty()
        }
    }

    /// `after` records the same waiters as `before` for every repository.
    pub open spec fn same_callbacks(before: Self, after: Self) -> bool {
        forall|k: RepoKey| #[trigger] after.callbacks_of(k) == before.callbacks_of(k)
    }

    /// `after` records the same status as `before` for every repository.
    pub open spec fn same_status(before: Self, after: Self) -> bool {
        forall|k: RepoKey| #[trigger] after.status_of(k) == before.status_of(k)
    }

    /// `after` records the same as `before` for every repository but `key`.
    pub open spec fn same_except(before: Self, after: Self, key: RepoKey) -> bool {
        &&& forall|k: RepoKey| k != key ==> #[trigger] after.status_of(k) == before.status_of(k)
        &&& forall|k: RepoKey| k != key ==> #[trigger] after.callbacks_of(k) == before.callbacks_of(
            k,
        )
    }

    /// `start_fetch` on `key` takes `before` to `after` and answers `started`.
    pub open spec fn start_fetch_step(before: Self, after: Self, key: RepoKey, started: bool) -> bool {
        &&& started == (before.status_of(key) != FetchingStatus::Fetching)
        &&& after.status_of(key) == FetchingStatus::Fetching
        &&& Self::same_callbacks(before, after)
        &&& Self::same_except(before, after, key)
    }

    /// `add_callback` of `waiter` on `key` takes `before` to `after`.
    pub open spec fn add_callback_step(before: Self, after: Self, key: RepoKey, waiter: W) -> bool {
        &&& after.callbacks_of(key) == before.callbacks_of(key).push(waiter)
        &&& Self::same_status(before, after)
        &&& Self::same_except(before, after, key)
    }

    /// `get_callbacks` on `key` takes `before` to `after` and hands back
    /// `taken`.
    pub open spec fn get_callbacks_step(before: Self, after: Self, key: RepoKey, taken: Seq<W>) -> bool {
        &&& taken == before.callbacks_of(key)
        &&& after.callbacks_of(key) == Seq::<W>::empty()
        &&& Self::same_status(before, after)
        &&& Self::same_except(before, after, key)
    }

    /// `finish_fetch` on `key` with `outcome` takes `before` to `after` and
    /// hands back `notified` to be woken.
    pub open spec fn finish_fetch_step(
        before: Self,
        after: Self,
        key: RepoKey,
        outcome: Result<(), AppError>,
        notified: Seq<W>,
    ) -> bool {
        &&& notified == before.callbacks_of(key)
        &&& after.status_of(key) == status_after(outcome)
        &&& after.callbacks_of(key) == Seq::<W>::empty()
        &&& Self::same_except(before, after, key)
    }

    /// A manager with nothing recorded.
    pub fn new() -> (manager: Self)
        ensures
            forall|k: RepoKey| #[trigger] manager.status_of(k) == FetchingStatus::Idle,
            forall|k: RepoKey| #[trigger] manager.callbacks_of(k) == Seq::<W>::empty(),
    {
        FetchingManager { status: Vec::new(), callbacks: Vec::new() }
    }

    /// Registers `waiter` to be notified when the fetch of `repo` ends.
    pub fn add_callback(&mut self, repo: RequestedRepo, waiter: W)
        ensures
            Self::add_callback_step(*old(self), *final(self), repo@, waiter),
    {
        proof {
            use_type_invariant(&*self);
        }
        let ghost key = repo@;
        let ghost before = *self;
        let mut entries: Vec<(RequestedRepo, Vec<W>)> = Vec::new();
        std::mem::swap(&mut entries, &mut self.callbacks);
        let mut waiters = match take_entry(&mut entries, &repo) {
            Some(registered) => registered,
            None => Vec::new(),
        };
        waiters.push(waiter);
        put_entry(&mut entries, repo, waiters);
        self.callbacks = entries;
        assert(Self::same_status(before, *self));
        assert(self.callbacks_of(key) == before.callbacks_of(key).push(waiter));
        assert(Self::same_except(before, *self, key));
    }

    /// Takes the waiters registered on `repo`, leaving none.
    pub fn get_callbacks(&mut self, repo: RequestedRepo) -> (waiters: Vec<W>)
        ensures
            Self::get_callbacks_step(*old(self), *final(self), repo@, waiters@),
    {
        proof {
            use_type_invariant(&*self);
        }
        let ghost key = repo@;
        let ghost before = *self;
        let mut entries: Vec<(RequestedRepo, Vec<W>)> = Vec::new();
        std::mem::swap(&mut entries, &mut self.callbacks);
        let waiters = match take_entry(&mut entries, &repo) {
            Some(registered) => registered,
            None => Vec::new(),
        };
        self.callbacks = entries;
        assert(Self::same_except(before, *self, key));
        waiters
    }

    /// Whether a fetch of `repo` is running.
    pub fn is_fetching(&self, repo: &RequestedRepo) -> (fetching: bool)
        ensures
            fetching == (self.status_of(repo@) == FetchingStatus::Fetching),
    {
        match self.status_of_entry(repo) {
            FetchingStatus::Fetching => true,
            _ => false,
        }
    }

    /// The error of the last fetch of `repo`, if it failed.
    pub fn is_failed(&self, repo: &RequestedRepo) -> (failure: Option<AppError>)
        ensures
            failure == match self.status_of(repo@) {
                FetchingStatus::Failed(e) => Some(e),
                _ => None,
            },
    {
        match self.status_of_entry(repo) {
            FetchingStatus::Failed(e) => Some(e),
            _ => None,
        }
    }

    /// The recorded status of `repo`.
    fn status_of_entry(&self, repo: &RequestedRepo) -> (status: FetchingStatus)
        ensures
            status == self.status_of(repo@),
    {
        proof {
            use_type_invariant(self);
        }
        match find_entry(&self.status, repo) {
            Some(i) => {
                proof {
                    lemma_entry_found(self.status@, repo@, i as int);
                }
                self.status[i].1
            },
            None => FetchingStatus::Idle,
        }
    }

    /// Records `status` as the fetch status of `repo`.
    pub fn set_status(&mut self, repo: RequestedRepo, status: FetchingStatus)
        ensures
            final(self).status_of(repo@) == status,
            Self::same_callbacks(*old(self), *final(self)),
            Self::same_except(*old(self), *final(self), repo@),
    {
        proof {
            use_type_invariant(&*self);
        }
        let ghost key = repo@;
        let ghost before = *self;
        let mut entries: Vec<(RequestedRepo, FetchingStatus)> = Vec::new();
        std::mem::swap(&mut entries, &mut self.status);
        let _ = take_entry(&mut entries, &repo);
        put_entry(&mut entries, repo, status);
        self.status = entries;
        assert(Self::same_callbacks(before, *self));
        assert(Self::same_except(before, *self, key));
    }

    /// Decides whether this request runs the fetch of `repo`: when none is
    /// running, marks `repo` as fetching and answers `true`; when one is,
    /// changes nothing and answers `false` (the request should then wait).
    pub fn start_fetch(&mut self, repo: RequestedRepo) -> (started: bool)
        ensures
            Self::start_fetch_step(*old(self), *final(self), repo@, started),
            !started ==> Self::same_status(*old(self), *final(self)),
    {
        if self.is_fetching(&repo) {
            false
        } else {
            self.set_status(repo, FetchingStatus::Fetching);
            true
        }
    }

    /// Ends the fetch of `repo` with `outcome`: records `Idle` or the failure,
    /// and hands back the waiters to notify together with the outcome to
    /// answer.
    pub fn finish_fetch(&mut self, repo: RequestedRepo, outcome: Result<(), AppError>) -> (ended: (
        Vec<W>,
        Result<(), AppError>,
    ))
        ensures
            Self::finish_fetch_step(*old(self), *final(self), repo@, outcome, ended.0@),
            ended.1 == outcome,
    {
        let new_status = match outcome {
            Ok(()) => FetchingStatus::Idle,
            Err(e) => FetchingStatus::Failed(e),
        };
        self.set_status(repo.clone(), new_status);
        let waiters = self.get_callbacks(repo);
        (waiters, outcome)
    }

    /// What a request that waited on the fetch of `repo` answers: the error
    /// of the fetch if it failed, else success.
    pub fn joined_result(&self, repo: &RequestedRepo) -> (answer: Result<(), AppError>)
        ensures
            answer == outcome_seen(self.status_of(repo@)),
    {
        match self.is_failed(repo) {
            Some(e) => Err(e),
            None => Ok(()),
        }
    }

    /// What a request that waited on the fetch of `repo` answers, given
    /// whether it was woken by the end of the fetch (`signalled`) or its
    /// wake-up was dropped unsent: in the latter case `InternalError`.
    pub fn waited_result(&self, repo: &RequestedRepo, signalled: bool) -> (answer: Result<
        (),
        AppError,
    >)
        ensures
            answer == if signalled {
                outcome_seen(self.status_of(repo@))
            } else {
                Err(AppError::InternalError)
            },
    {
        if signalled {
            self.joined_result(repo)
        } else {
            Err(AppError::InternalError)
        }
    }
}

/// At most one fetch per repository: once a fetch was started (or found
/// running), a second `start_fetch` on the same repository does not start
/// another and changes nothing.
pub proof fn law_single_flight<W>(
    before: FetchingManager<W>,
    during: FetchingManager<W>,
    after: FetchingManager<W>,
    key: RepoKey,
    first: bool,
    second: bool,
)
    requires
        FetchingManager::start_fetch_step(before, during, key, first),
        FetchingManager::start_fetch_step(during, after, key, second),
    ensures
        !second,
        FetchingManager::same_status(during, after),
        FetchingManager::same_callbacks(during, after),
{
    assert forall|k: RepoKey| #[trigger] after.status_of(k) == during.status_of(k) by {}
}

/// Every request that registered while a fetch ran is handed back when the
/// fetch ends, in the order it registered, and none stays registered.
pub proof fn law_waiters_released<W>(
    before: FetchingManager<W>,
    during: FetchingManager<W>,
    after: FetchingManager<W>,
    key: RepoKey,
    waiter: W,
    outcome: Result<(), AppError>,
    notified: Seq<W>,
)
    requires
        FetchingManager::add_callback_step(before, during, key, waiter),
        FetchingManager::finish_fetch_step(during, after, key, outcome, notified),
    ensures
        notified == before.callbacks_of(key).push(waiter),
        after.callbacks_of(key) == Seq::<W>::empty(),
{
}

/// A request that waited on a fetch answers what the fetch itself answered.
pub proof fn law_waiter_sees_outcome<W>(
    before: FetchingManager<W>,
    after: FetchingManager<W>,
    key: RepoKey,
    outcome: Result<(), AppError>,
    notified: Seq<W>,
)
    requires
        FetchingManager::finish_fetch_step(before, after, key, outcome, notified),
    ensures
        outcome_seen(after.status_of(key)) == outcome,
{
    if let Ok(unit) = outcome {
        assert(unit == ());
    }
}

/// A fetch that was started and has ended leaves the repository free for the
/// next fetch to start, whatever its outcome.
pub proof fn law_fetch_can_restart<W>(
    before: FetchingManager<W>,
    during: FetchingManager<W>,
    after: FetchingManager<W>,
    key: RepoKey,
    outcome: Result<(), AppError>,
    notified: Seq<W>,
)
    requires
        FetchingManager::start_fetch_step(before, during, key, true),
        FetchingManager::finish_fetch_step(during, after, key, outcome, notified),
    ensures
        after.status_of(key) != FetchingStatus::Fetching,
{
}

/// Starting, waiting on and ending the fetch of one repository leave every
/// other repository's records as they were.
pub proof fn law_repositories_independent<W>(
    before: FetchingManager<W>,
    started: FetchingManager<W>,
    joined: FetchingManager<W>,
    after: FetchingManager<W>,
    key: RepoKey,
    other: RepoKey,
    first: bool,
    waiter: W,
    outcome: Result<(), AppError>,
    notified: Seq<W>,
)
    requires
        other != key,
        FetchingManager::start_fetch_step(before, started, key, first),
        FetchingManager::add_callback_step(started, joined, key, waiter),
        FetchingManager::finish_fetch_step(joined, after, key, outcome, notified),
    ensures
        after.status_of(other) == before.status_of(other),
        after.callbacks_of(other) == before.callbacks_of(other),
{
}

/// Requests that register one after another on a repository with no one
/// registered are all handed back by `get_callbacks`, in the order they
/// registered; none stays registered, so a second `get_callbacks` hands back
/// none, and no status changes on the way.
pub proof fn law_registrations_returned_in_order<W>(
    states: Seq<FetchingManager<W>>,
    key: RepoKey,
    waiters: Seq<W>,
    after: FetchingManager<W>,
    taken: Seq<W>,
    again: FetchingManager<W>,
    taken_again: Seq<W>,
)
    requires
        states.len() == waiters.len() + 1,
        states[0].callbacks_of(key) == Seq::<W>::empty(),
        forall|i: int|
            0 <= i < waiters.len() ==> #[trigger] FetchingManager::add_callback_step(
                states[i],
                states[i + 1],
                key,
                waiters[i],
            ),
        FetchingManager::get_callbacks_step(states.last(), after, key, taken),
        FetchingManager::get_callbacks_step(after, again, key, taken_again),
    ensures
        taken == waiters,
        after.callbacks_of(key) == Seq::<W>::empty(),
        taken_again == Seq::<W>::empty(),
        forall|k: RepoKey| #[trigger] after.status_of(k) == states[0].status_of(k),
{
    lemma_registrations_accumulate(states, key, waiters, waiters.len() as int);
    assert(waiters.subrange(0, waiters.len() as int) =~= waiters);
}

/// After the first `n` registrations, exactly the first `n` waiters are
/// registered, and no status has changed.
proof fn lemma_registrations_accumulate<W>(
    states: Seq<FetchingManager<W>>,
    key: RepoKey,
    waiters: Seq<W>,
    n: int,
)
    requires
        states.len() == waiters.len() + 1,
        0 <= n <= waiters.len(),
        states[0].callbacks_of(key) == Seq::<W>::empty(),
        forall|i: int|
            0 <= i < waiters.len() ==> #[trigger] FetchingManager::add_callback_step(
                states[i],
                states[i + 1],
                key,
                waiters[i],
            ),
    ensures
        states[n].callbacks_of(key) == waiters.subrange(0, n),
        forall|k: RepoKey| #[trigger] states[n].status_of(k) == states[0].status_of(k),
    decreases n,
{
    if n == 0 {
        assert(waiters.subrange(0, 0) =~= Seq::<W>::empty());
    } else {
        lemma_registrations_accumulate(states, key, waiters, n - 1);
        let i = n - 1;
        assert(FetchingManager::add_callback_step(states[i], states[i + 1], key, waiters[i]));
        assert(i + 1 == n);
        assert(waiters.subrange(0, n - 1).push(waiters[n - 1]) =~= waiters.subrange(0, n));
        assert forall|k: RepoKey| #[trigger] states[n].status_of(k) == states[0].status_of(k) by {
            assert(states[n].status_of(k) == states[n - 1].status_of(k));
        }
    }
}

/// A fetch that ends with an error leaves exactly that error recorded, so
/// `is_failed` answers it and every waiter answers it; a fetch that ends
/// well leaves the repository idle and its waiters answer success.
pub proof fn law_fetch_error_recorded<W>(
    before: FetchingManager<W>,
    after: FetchingManager<W>,
    key: RepoKey,
    outcome: Result<(), AppError>,
    notified: Seq<W>,
)
    requires
        FetchingManager::finish_fetch_step(before, after, key, outcome, notified),
    ensures
        forall|e: AppError| outcome == Err::<(), AppError>(e) ==> after.status_of(key)
            == FetchingStatus::Failed(e) && outcome_seen(after.status_of(key)) == Err::<
            (),
            AppError,
        >(e),
        outcome is Ok ==> after.status_of(key) == FetchingStatus::Idle && outcome_seen(
            after.status_of(key),
        ) is Ok,
{
}

/// A request that waited answers the error recorded for the repository,
/// whichever error it is, and success when none is recorded.
pub proof fn law_waiter_answers_recorded_error<W>(m: FetchingManager<W>, key: RepoKey)
    ensures
        forall|e: AppError| m.status_of(key) == FetchingStatus::Failed(e) ==> outcome_seen(
            m.status_of(key),
        ) == Err::<(), AppError>(e),
        !(m.status_of(key) is Failed) ==> outcome_seen(m.status_of(key)) == Ok::<(), AppError>(()),
{
}

} // verus!
