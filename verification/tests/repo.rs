use nixpkgs_eval::repo::{
    failure_text, fetch_request, FetchRequest, next_step, nixpkgs_pull_reply, unavailable_text, Refresh,
    RefreshStep, RepoGuard, RepoState, RepoUnavailable, BRANCH, FETCH_DEPTH, FETCH_HEAD,
    LOCAL_BRANCH, REMOTE, RESET_NOTE,
};

const STEPS: [RefreshStep; 8] = [
    RefreshStep::FindRemote,
    RefreshStep::Fetch,
    RefreshStep::FindFetchHead,
    RefreshStep::ResolveTarget,
    RefreshStep::FindBranch,
    RefreshStep::SetTarget,
    RefreshStep::SetHead,
    RefreshStep::Checkout,
];

fn ready() -> RepoGuard {
    let mut guard = RepoGuard::new();
    assert!(guard.begin_clone());
    guard.finish_clone(true);
    guard
}

#[test]
fn the_checkout_is_cloned_once() {
    let mut guard = RepoGuard::new();
    assert_eq!(guard.state(), RepoState::Uncloned);
    assert_eq!(guard.try_acquire(), Err(RepoUnavailable::NotReady));
    assert!(matches!(guard.begin_refresh(), Err(RepoUnavailable::NotReady)));
    assert!(guard.begin_clone());
    assert_eq!(guard.state(), RepoState::Cloning);
    assert!(!guard.begin_clone());
    assert_eq!(guard.try_acquire(), Err(RepoUnavailable::Busy));
    assert!(matches!(guard.begin_refresh(), Err(RepoUnavailable::Busy)));
    guard.finish_clone(true);
    assert_eq!(guard.state(), RepoState::Ready);
    assert!(!guard.begin_clone());
    guard.finish_clone(false);
    assert_eq!(guard.state(), RepoState::Ready);
}

#[test]
fn a_failed_clone_can_be_tried_again() {
    let mut guard = RepoGuard::new();
    assert!(guard.begin_clone());
    guard.finish_clone(false);
    assert_eq!(guard.state(), RepoState::Uncloned);
    assert!(guard.begin_clone());
}

#[test]
fn only_one_reader_holds_the_checkout() {
    let mut guard = ready();
    assert_eq!(guard.try_acquire(), Ok(()));
    assert_eq!(guard.state(), RepoState::InUse);
    assert_eq!(guard.try_acquire(), Err(RepoUnavailable::Busy));
    assert!(matches!(guard.begin_refresh(), Err(RepoUnavailable::Busy)));
    assert_eq!(guard.state(), RepoState::InUse);
    guard.end_refresh();
    assert_eq!(guard.state(), RepoState::InUse);
    guard.release();
    assert_eq!(guard.state(), RepoState::Ready);
    assert_eq!(guard.try_acquire(), Ok(()));
}

#[test]
fn only_one_refresh_holds_the_checkout() {
    let mut guard = ready();
    assert_eq!(guard.begin_refresh(), Ok(Refresh::start()));
    assert_eq!(guard.state(), RepoState::Refreshing);
    assert_eq!(guard.begin_refresh(), Err(RepoUnavailable::Busy));
    assert_eq!(guard.try_acquire(), Err(RepoUnavailable::Busy));
    assert_eq!(guard.state(), RepoState::Refreshing);
    guard.release();
    assert_eq!(guard.state(), RepoState::Refreshing);
    guard.end_refresh();
    assert_eq!(guard.state(), RepoState::Ready);
    assert!(guard.begin_refresh().is_ok());
}

#[test]
fn a_refresh_runs_its_steps_in_order() {
    let mut refresh = Refresh::start();
    for step in STEPS {
        assert_eq!(refresh.due(), Some(step));
        assert!(!refresh.succeeded());
        assert_eq!(refresh.target_moved, step == RefreshStep::SetHead || step == RefreshStep::Checkout);
        refresh.record(true);
    }
    assert_eq!(refresh.due(), None);
    assert!(refresh.succeeded());
    assert!(refresh.target_moved);
    assert_eq!(refresh.failed, None);
    refresh.record(false);
    assert!(refresh.succeeded());
    assert_eq!(
        nixpkgs_pull_reply(Ok(refresh)),
        Ok("Nixpkgs updated to upstream tip.".to_string())
    );
}

#[test]
fn a_failed_step_ends_the_refresh() {
    for (index, step) in STEPS.iter().enumerate() {
        let mut refresh = Refresh::start();
        for _ in 0..index {
            refresh.record(true);
        }
        refresh.record(false);
        assert_eq!(refresh.due(), None);
        assert_eq!(refresh.failed, Some(*step));
        assert!(!refresh.succeeded());
        assert_eq!(refresh.target_moved, index > 5, "{step:?}");
        refresh.record(true);
        assert_eq!(refresh.failed, Some(*step));
        assert_eq!(nixpkgs_pull_reply(Ok(refresh)), Err(failure_text(*step)));
    }
}

#[test]
fn a_failed_fetch_leaves_the_local_branch_alone() {
    let mut guard = ready();
    let mut refresh = guard.begin_refresh().unwrap();
    refresh.record(true);
    assert_eq!(refresh.due(), Some(RefreshStep::Fetch));
    refresh.record(false);
    assert_eq!(refresh.failed, Some(RefreshStep::Fetch));
    assert!(!refresh.target_moved);
    guard.end_refresh();
    assert_eq!(guard.state(), RepoState::Ready);
    assert_eq!(nixpkgs_pull_reply(Ok(refresh)), Err("The master branch is gone yo.".to_string()));
}

#[test]
fn each_step_has_its_message() {
    let expected = [
        "Could not find the upstream remote!",
        "The master branch is gone yo.",
        "The commit I just fetched fucking *vanished*",
        "Couldn't target the fetched head.",
        "Can't find the local master branch I plan to apply the work to!",
        "Set target operation on the reflog shit itself...",
        "Setting the new head shat itself.",
        "Moving the local checkout failed.",
    ];
    for (step, text) in STEPS.iter().zip(expected) {
        assert_eq!(failure_text(*step), text);
    }
}

#[test]
fn next_step_follows_the_order() {
    for pair in STEPS.windows(2) {
        assert_eq!(next_step(pair[0]), Some(pair[1]));
    }
    assert_eq!(next_step(RefreshStep::Checkout), None);
}

#[test]
fn who_cannot_have_the_checkout_is_told_why() {
    assert_eq!(
        unavailable_text(RepoUnavailable::Busy),
        "The nixpkgs repo is currently in use elsewhere. Try again later."
    );
    assert_eq!(
        unavailable_text(RepoUnavailable::NotReady),
        "The nixpkgs repo has not been set up. Try again later."
    );
    assert_eq!(
        nixpkgs_pull_reply(Err(RepoUnavailable::NotReady)),
        Err("Nixpkgs repo is not available!".to_string())
    );
    assert_eq!(
        nixpkgs_pull_reply(Err(RepoUnavailable::Busy)),
        Err("Nixpkgs repo is not available!".to_string())
    );
}

#[test]
fn a_refresh_fetches_the_tip_of_master_from_origin() {
    assert_eq!(REMOTE, "origin");
    assert_eq!(BRANCH, "master");
    assert_eq!(FETCH_HEAD, "FETCH_HEAD");
    assert_eq!(LOCAL_BRANCH, "refs/heads/master");
    assert_eq!(RESET_NOTE, "Reset to latest upstream");
    assert_eq!(FETCH_DEPTH, 1);
}

#[test]
fn a_refresh_fetches_with_the_configured_depth() {
    for depth in [1, 5, 50, 0, -1, i32::MAX] {
        assert_eq!(
            fetch_request(depth),
            FetchRequest { remote: "origin".to_string(), branch: "master".to_string(), depth }
        );
    }
    assert_eq!(fetch_request(FETCH_DEPTH).depth, 1);
}
