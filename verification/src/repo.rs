//! The guard around the checkout of nixpkgs, and the plan of a refresh.
//!
//! The checkout is one shared resource with one exclusive holder at a time:
//! an evaluation that reads it, or the refresh that rewrites it. Nobody waits
//! inside the guard: who cannot have it is told why.

use vstd::prelude::*;

verus! {

/// The remote that a refresh fetches from.
pub const REMOTE: &'static str = "origin";

/// The branch that a refresh fetches and resets.
pub const BRANCH: &'static str = "master";

/// The reference that holds what was fetched last.
pub const FETCH_HEAD: &'static str = "FETCH_HEAD";

/// The reference of the local branch.
pub const LOCAL_BRANCH: &'static str = "refs/heads/master";

/// The note that the reset leaves in the reference's log.
pub const RESET_NOTE: &'static str = "Reset to latest upstream";

/// How many commits of history a refresh fetches where nothing else is
/// configured.
pub const FETCH_DEPTH: i32 = 1;

/// What a refresh asks of the remote: which remote, which branch, and how
/// many commits of history.
#[derive(Clone, Debug, PartialEq, Eq)]
pub struct FetchRequest {
    pub remote: String,
    pub branch: String,
    pub depth: i32,
}

/// The fetch of a refresh with the configured depth `depth`: from the remote
/// `origin`, the branch `master`, with shallow history of that depth. The
/// depth is handed on as it is configured; to git a depth that is not
/// positive means the whole history.
pub fn fetch_request(depth: i32) -> (request: FetchRequest)
    ensures
        request.remote@ == "origin"@,
        request.branch@ == "master"@,
        request.depth == depth,
{
    FetchRequest { remote: String::from_str("origin"), branch: String::from_str("master"), depth }
}

/// Where the checkout stands.
#[derive(Clone, Copy, Debug, PartialEq, Eq, Structural)]
pub enum RepoState {
    /// There is no checkout yet and nobody is making one.
    Uncloned,
    /// The first clone is under way.
    Cloning,
    /// The checkout is there and nobody holds it.
    Ready,
    /// An evaluation holds the checkout.
    InUse,
    /// A refresh holds the checkout.
    Refreshing,
}

/// Why the checkout cannot be had now.
#[derive(Clone, Copy, Debug, PartialEq, Eq, Structural)]
pub enum RepoUnavailable {
    /// Someone else holds it.
    Busy,
    /// It has not been cloned yet.
    NotReady,
}

/// One step of a refresh, in the order in which they run.
#[derive(Clone, Copy, Debug, PartialEq, Eq, Structural)]
pub enum RefreshStep {
    /// Look up the remote.
    FindRemote,
    /// Fetch the branch from it, with shallow history.
    Fetch,
    /// Look up the reference to what was fetched.
    FindFetchHead,
    /// Read the commit that this reference points to.
    ResolveTarget,
    /// Look up the local branch.
    FindBranch,
    /// Point the local branch at the fetched commit.
    SetTarget,
    /// Make the local branch the current one.
    SetHead,
    /// Force the working tree to match it.
    Checkout,
}

/// The place of `step` in the order.
pub open spec fn step_index(step: RefreshStep) -> int {
    match step {
        RefreshStep::FindRemote => 0,
        RefreshStep::Fetch => 1,
        RefreshStep::FindFetchHead => 2,
        RefreshStep::ResolveTarget => 3,
        RefreshStep::FindBranch => 4,
        RefreshStep::SetTarget => 5,
        RefreshStep::SetHead => 6,
        RefreshStep::Checkout => 7,
    }
}

/// The step that follows `step`, if any.
pub open spec fn step_after(step: RefreshStep) -> Option<RefreshStep> {
    match step {
        RefreshStep::FindRemote => Some(RefreshStep::Fetch),
        RefreshStep::Fetch => Some(RefreshStep::FindFetchHead),
        RefreshStep::FindFetchHead => Some(RefreshStep::ResolveTarget),
        RefreshStep::ResolveTarget => Some(RefreshStep::FindBranch),
        RefreshStep::FindBranch => Some(RefreshStep::SetTarget),
        RefreshStep::SetTarget => Some(RefreshStep::SetHead),
        RefreshStep::SetHead => Some(RefreshStep::Checkout),
        RefreshStep::Checkout => None,
    }
}

/// A refresh under way: the step that is due, the step that failed, and
/// whether the local branch has been pointed at the fetched commit.
#[derive(Clone, Copy, Debug, PartialEq, Eq, Structural)]
pub struct Refresh {
    pub due: Option<RefreshStep>,
    pub failed: Option<RefreshStep>,
    pub target_moved: bool,
}

/// How far `r` has come: the place of the step that is due or that failed,
/// or eight when all steps are done.
pub open spec fn reached(r: Refresh) -> int {
    match r.failed {
        Some(step) => step_index(step),
        None => match r.due {
            Some(step) => step_index(step),
            None => 8,
        },
    }
}

/// What holds of every refresh: after a failure nothing is due, and the local
/// branch has moved if and only if the step that moves it was done.
pub open spec fn refresh_wf(r: Refresh) -> bool {
    &&& r.failed is Some ==> r.due is None
    &&& r.target_moved <==> reached(r) > step_index(RefreshStep::SetTarget)
}

/// A refresh before its first step.
pub open spec fn refresh_start() -> Refresh {
    Refresh { due: Some(RefreshStep::FindRemote), failed: None, target_moved: false }
}

/// The refresh `r` after the step that was due went well or did not. A step
/// that went well makes the next one due; one that did not ends the refresh.
/// Where nothing is due, nothing changes.
pub open spec fn recorded(r: Refresh, went_well: bool) -> Refresh {
    match r.due {
        None => r,
        Some(step) => if went_well {
            Refresh {
                due: step_after(step),
                failed: None,
                target_moved: r.target_moved || step == RefreshStep::SetTarget,
            }
        } else {
            Refresh { due: None, failed: Some(step), target_moved: r.target_moved }
        },
    }
}

/// The state after someone asked for the checkout to read it.
pub open spec fn acquired(state: RepoState) -> (RepoState, Result<(), RepoUnavailable>) {
    match state {
        RepoState::Ready => (RepoState::InUse, Ok(())),
        RepoState::InUse => (state, Err(RepoUnavailable::Busy)),
        RepoState::Refreshing => (state, Err(RepoUnavailable::Busy)),
        RepoState::Cloning => (state, Err(RepoUnavailable::Busy)),
        RepoState::Uncloned => (state, Err(RepoUnavailable::NotReady)),
    }
}

/// The state after someone asked for the checkout to refresh it.
pub open spec fn refresh_begun(state: RepoState) -> (RepoState, Result<(), RepoUnavailable>) {
    match state {
        RepoState::Ready => (RepoState::Refreshing, Ok(())),
        _ => acquired(state),
    }
}

/// The text that tells why the checkout cannot be read now.
pub open spec fn unavailable_message(why: RepoUnavailable) -> Seq<char> {
    match why {
        RepoUnavailable::Busy =>
            "The nixpkgs repo is currently in use elsewhere. Try again later."@,
        RepoUnavailable::NotReady => "The nixpkgs repo has not been set up. Try again later."@,
    }
}

/// The text that tells at which step a refresh failed.
pub open spec fn failure_message(step: RefreshStep) -> Seq<char> {
    match step {
        RefreshStep::FindRemote => "Could not find the upstream remote!"@,
        RefreshStep::Fetch => "The master branch is gone yo."@,
        RefreshStep::FindFetchHead => "The commit I just fetched fucking *vanished*"@,
        RefreshStep::ResolveTarget => "Couldn't target the fetched head."@,
        RefreshStep::FindBranch =>
            "Can't find the local master branch I plan to apply the work to!"@,
        RefreshStep::SetTarget => "Set target operation on the reflog shit itself..."@,
        RefreshStep::SetHead => "Setting the new head shat itself."@,
        RefreshStep::Checkout => "Moving the local checkout failed."@,
    }
}

/// The text that tells how a refresh ended, or that there is no checkout to
/// refresh.
pub open spec fn refresh_reply(report: Result<Refresh, RepoUnavailable>) -> Result<
    Seq<char>,
    Seq<char>,
> {
    match report {
        Err(_) => Err("Nixpkgs repo is not available!"@),
        Ok(r) => match r.failed {
            Some(step) => Err(failure_message(step)),
            None => Ok("Nixpkgs updated to upstream tip."@),
        },
    }
}

impl Refresh {
    /// A refresh before its first step.
    pub fn start() -> (r: Refresh)
        ensures
            r == refresh_start(),
            refresh_wf(r),
    {
        Refresh { due: Some(RefreshStep::FindRemote), failed: None, target_moved: false }
    }

    /// The step to run next, or `None` when the refresh has ended.
    pub fn due(&self) -> (step: Option<RefreshStep>)
        ensures
            step == self.due,
    {
        self.due
    }

    /// Whether the refresh ended with every step done.
    pub fn succeeded(&self) -> (r: bool)
        ensures
            r == (self.due is None && self.failed is None),
    {
        self.due.is_none() && self.failed.is_none()
    }

    /// Takes note of how the step that was due went.
    pub fn record(&mut self, went_well: bool)
        ensures
            *final(self) == recorded(*old(self), went_well),
            refresh_wf(*old(self)) ==> refresh_wf(*final(self)),
    {
        match self.due {
            None => {},
            Some(step) => {
                if went_well {
                    self.due = next_step(step);
                    self.failed = None;
                    self.target_moved = self.target_moved || step == RefreshStep::SetTarget;
                } else {
                    self.due = None;
                    self.failed = Some(step);
                }
            },
        }
    }
}

/// The step that follows `step`, if any.
pub fn next_step(step: RefreshStep) -> (next: Option<RefreshStep>)
    ensures
        next == step_after(step),
{
    match step {
        RefreshStep::FindRemote => Some(RefreshStep::Fetch),
        RefreshStep::Fetch => Some(RefreshStep::FindFetchHead),
        RefreshStep::FindFetchHead => Some(RefreshStep::ResolveTarget),
        RefreshStep::ResolveTarget => Some(RefreshStep::FindBranch),
        RefreshStep::FindBranch => Some(RefreshStep::SetTarget),
        RefreshStep::SetTarget => Some(RefreshStep::SetHead),
        RefreshStep::SetHead => Some(RefreshStep::Checkout),
        RefreshStep::Checkout => None,
    }
}

/// The guard around the checkout.
#[derive(Clone, Debug, PartialEq, Eq)]
pub struct RepoGuard {
    state: RepoState,
}

impl View for RepoGuard {
    type V = RepoState;

    closed spec fn view(&self) -> RepoState {
        self.state
    }
}

impl RepoGuard {
    /// A guard around a checkout that is yet to be made.
    pub fn new() -> (guard: RepoGuard)
        ensures
            guard@ == RepoState::Uncloned,
    {
        RepoGuard { state: RepoState::Uncloned }
    }

    /// Where the checkout stands.
    pub fn state(&self) -> (state: RepoState)
        ensures
            state == self@,
    {
        self.state
    }

    /// Claims the first clone. `true` where the caller is to clone: there was
    /// no checkout and nobody was making one.
    pub fn begin_clone(&mut self) -> (claimed: bool)
        ensures
            claimed == (old(self)@ == RepoState::Uncloned),
            final(self)@ == if claimed {
                RepoState::Cloning
            } else {
                old(self)@
            },
    {
        match self.state {
            RepoState::Uncloned => {
                self.state = RepoState::Cloning;
                true
            },
            _ => false,
        }
    }

    /// Ends the first clone: the checkout is ready where there is one now,
    /// and as absent as before where there is none.
    pub fn finish_clone(&mut self, cloned: bool)
        ensures
            final(self)@ == if old(self)@ == RepoState::Cloning {
                if cloned {
                    RepoState::Ready
                } else {
                    RepoState::Uncloned
                }
            } else {
                old(self)@
            },
    {
        match self.state {
            RepoState::Cloning => {
                self.state = if cloned {
                    RepoState::Ready
                } else {
                    RepoState::Uncloned
                };
            },
            _ => {},
        }
    }

    /// Asks for the checkout to read it. Granted where it is ready; else the
    /// caller is told why not, and nothing changes.
    pub fn try_acquire(&mut self) -> (r: Result<(), RepoUnavailable>)
        ensures
            (final(self)@, r) == acquired(old(self)@),
    {
        match self.state {
            RepoState::Ready => {
                self.state = RepoState::InUse;
                Ok(())
            },
            RepoState::Uncloned => Err(RepoUnavailable::NotReady),
            _ => Err(RepoUnavailable::Busy),
        }
    }

    /// Gives the checkout back after reading it.
    pub fn release(&mut self)
        ensures
            final(self)@ == if old(self)@ == RepoState::InUse {
                RepoState::Ready
            } else {
                old(self)@
            },
    {
        match self.state {
            RepoState::InUse => {
                self.state = RepoState::Ready;
            },
            _ => {},
        }
    }

    /// Asks for the checkout to refresh it. Granted where it is ready, with a
    /// refresh before its first step; else the caller is told why not, and
    /// nothing changes.
    pub fn begin_refresh(&mut self) -> (r: Result<Refresh, RepoUnavailable>)
        ensures
            final(self)@ == refresh_begun(old(self)@).0,
            match r {
                Ok(refresh) => refresh_begun(old(self)@).1 is Ok && refresh == refresh_start(),
                Err(why) => refresh_begun(old(self)@).1 == Err::<(), RepoUnavailable>(why),
            },
    {
        match self.state {
            RepoState::Ready => {
                self.state = RepoState::Refreshing;
                Ok(Refresh::start())
            },
            RepoState::Uncloned => Err(RepoUnavailable::NotReady),
            _ => Err(RepoUnavailable::Busy),
        }
    }

    /// Gives the checkout back after a refresh, however the refresh ended.
    pub fn end_refresh(&mut self)
        ensures
            final(self)@ == if old(self)@ == RepoState::Refreshing {
                RepoState::Ready
            } else {
                old(self)@
            },
    {
        match self.state {
            RepoState::Refreshing => {
                self.state = RepoState::Ready;
            },
            _ => {},
        }
    }
}

/// The text that tells why the checkout cannot be read now.
pub fn unavailable_text(why: RepoUnavailable) -> (out: String)
    ensures
        out@ == unavailable_message(why),
{
    match why {
        RepoUnavailable::Busy => String::from_str(
            "The nixpkgs repo is currently in use elsewhere. Try again later.",
        ),
        RepoUnavailable::NotReady => String::from_str(
            "The nixpkgs repo has not been set up. Try again later.",
        ),
    }
}

/// The text that tells at which step a refresh failed.
pub fn failure_text(step: RefreshStep) -> (out: String)
    ensures
        out@ == failure_message(step),
{
    match step {
        RefreshStep::FindRemote => String::from_str("Could not find the upstream remote!"),
        RefreshStep::Fetch => String::from_str("The master branch is gone yo."),
        RefreshStep::FindFetchHead => String::from_str(
            "The commit I just fetched fucking *vanished*",
        ),
        RefreshStep::ResolveTarget => String::from_str("Couldn't target the fetched head."),
        RefreshStep::FindBranch => String::from_str(
            "Can't find the local master branch I plan to apply the work to!",
        ),
        RefreshStep::SetTarget => String::from_str(
            "Set target operation on the reflog shit itself...",
        ),
        RefreshStep::SetHead => String::from_str("Setting the new head shat itself."),
        RefreshStep::Checkout => String::from_str("Moving the local checkout failed."),
    }
}

/// What the caller of a refresh is told: that the checkout is up to date, at
/// which step the refresh failed, or that there is no checkout to refresh.
/// `report` is the refresh as it ended, or the guard's refusal.
pub fn nixpkgs_pull_reply(report: Result<Refresh, RepoUnavailable>) -> (reply: Result<
    String,
    String,
>)
    ensures
        match reply {
            Ok(text) => refresh_reply(report) == Ok::<Seq<char>, Seq<char>>(text@),
            Err(text) => refresh_reply(report) == Err::<Seq<char>, Seq<char>>(text@),
        },
{
    match report {
        Err(_) => Err(String::from_str("Nixpkgs repo is not available!")),
        Ok(r) => match r.failed {
            Some(step) => Err(failure_text(step)),
            None => Ok(String::from_str("Nixpkgs updated to upstream tip.")),
        },
    }
}

/// While a refresh holds the checkout nobody else gets it: neither a second
/// refresh nor a reader, and the state stays as it is.
pub proof fn lemma_one_refresh_at_a_time(state: RepoState)
    requires
        refresh_begun(state).1 is Ok,
    ensures
        refresh_begun(state).0 == RepoState::Refreshing,
        refresh_begun(refresh_begun(state).0) == (
            RepoState::Refreshing,
            Err::<(), RepoUnavailable>(RepoUnavailable::Busy),
        ),
        acquired(refresh_begun(state).0) == (
            RepoState::Refreshing,
            Err::<(), RepoUnavailable>(RepoUnavailable::Busy),
        ),
{
}

/// The checkout is never handed to two holders: who asks while it is held,
/// by a reader or by a refresh, is turned away and changes nothing.
pub proof fn lemma_held_is_exclusive(state: RepoState)
    requires
        state == RepoState::InUse || state == RepoState::Refreshing,
    ensures
        acquired(state) == (state, Err::<(), RepoUnavailable>(RepoUnavailable::Busy)),
        refresh_begun(state) == (state, Err::<(), RepoUnavailable>(RepoUnavailable::Busy)),
{
}

/// A refresh that fails before the step that moves the local branch, or at
/// it, leaves the local branch where it was: there is no partial reset. This
/// holds in particular of a failure at the fetch.
pub proof fn lemma_failed_refresh_keeps_target(r: Refresh)
    requires
        refresh_wf(r),
        r.failed matches Some(step) && step_index(step) <= step_index(RefreshStep::SetTarget),
    ensures
        !r.target_moved,
{
}

/// Every step keeps a refresh well-formed, and the first state is.
pub proof fn lemma_recorded_wf(r: Refresh, went_well: bool)
    requires
        refresh_wf(r),
    ensures
        refresh_wf(recorded(r, went_well)),
        refresh_wf(refresh_start()),
{
}

} // verus!
