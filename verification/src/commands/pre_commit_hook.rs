//! `gitclock pre-commit-hook`: refuse commits made outside the timeslots.

use vstd::prelude::*;
use crate::config::{Config, spec_timeslots, spec_timezone};
use crate::git::{GitShell, GitSession, GitError, GitFailure, get_last_commit_date_with_shell, spec_last_commit_date, spec_last_commit_date_args, one_git_call, failure_view};
use crate::instant::Instant;
use crate::timeslot::{any_contains, is_within_any};
use crate::commands::commit::slots_view;

verus! {

/// What the environment tells the hooks.
#[derive(Debug, Clone, Copy)]
pub struct HookEnv {
    /// `GITCLOCK` is set to `1`: `gitclock` itself is running Git.
    pub gitclock: bool,
    /// `GIT_COMMITTER_DATE` is set.
    pub committer_date_set: bool,
}

/// What the pre-commit hook decided.
#[derive(Debug)]
pub enum PreCommitOutcome {
    /// No valid timeslot is configured.
    NoTimeslots,
    /// `now` is outside every timeslot and `gitclock` is not running Git.
    OutsideTimeslot,
    /// The date of the last commit could not be read.
    LastCommitDateFailed(GitError),
    /// The last commit is dated after `now`, and neither `gitclock` nor a
    /// committer date set the date of this one.
    LastCommitInFuture { last_commit_date: Instant },
    /// The commit may go ahead.
    Passed { last_commit_date: Instant },
}

impl PreCommitOutcome {
    /// The exit code of the hook.
    pub fn exit_code(&self) -> (r: i32)
        ensures
            r == if *self is Passed { 0i32 } else { 1i32 },
    {
        match self {
            PreCommitOutcome::Passed { .. } => 0,
            _ => 1,
        }
    }
}

/// `r` is what the hook decides once the last commit's date was read as
/// `read`: a failure to read it is reported; a date after `now` refuses the
/// commit unless `gitclock` runs Git or a committer date is set; otherwise
/// the commit passes.
pub open spec fn pre_commit_follows(now: Instant, env: HookEnv, read: Result<Instant, GitFailure>, r: PreCommitOutcome) -> bool {
    match read {
        Err(f) => r matches PreCommitOutcome::LastCommitDateFailed(e) && e@ == f,
        Ok(l) => if !env.gitclock && !env.committer_date_set && now.is_before(l) {
            r == (PreCommitOutcome::LastCommitInFuture { last_commit_date: l })
        } else {
            r == (PreCommitOutcome::Passed { last_commit_date: l })
        },
    }
}

/// What the hook decides once the last commit's date was read.
pub fn pre_commit_decision(now: Instant, env: HookEnv, read: Result<Instant, GitError>) -> (r: PreCommitOutcome)
    ensures
        pre_commit_follows(now, env, failure_view(read), r),
{
    match read {
        Err(e) => PreCommitOutcome::LastCommitDateFailed(e),
        Ok(last_commit_date) => {
            if !env.gitclock && !env.committer_date_set && last_commit_date.is_after(&now) {
                PreCommitOutcome::LastCommitInFuture { last_commit_date }
            } else {
                PreCommitOutcome::Passed { last_commit_date }
            }
        },
    }
}

/// Decides whether a commit made at `now` may go ahead: without timeslots,
/// or outside them unless `gitclock` runs Git, it refuses without asking
/// Git; otherwise it asks Git for the last commit's date
/// (`git log -1 --format=%cI`) and decides on the answer.
pub fn pre_commit_hook_with_shell<S: GitShell>(now: Instant, git: &mut GitSession<S>, config: &Config, env: HookEnv) -> (r: PreCommitOutcome)
    requires
        now.valid(),
    ensures
        final(git).shell == old(git).shell,
        ({
            let ts = spec_timeslots(config.data.timeslots@, spec_timezone(config.data));
            &&& (r is NoTimeslots) <==> ts.len() == 0
            &&& (r is OutsideTimeslot) <==> (ts.len() > 0 && !env.gitclock && !any_contains(ts, now))
            &&& (r is NoTimeslots || r is OutsideTimeslot) ==> final(git).calls@ == old(git).calls@
            &&& !(r is NoTimeslots || r is OutsideTimeslot) ==> {
                &&& one_git_call(old(git).calls@, final(git).calls@, spec_last_commit_date_args(), false, seq![])
                &&& pre_commit_follows(now, env, spec_last_commit_date(now, final(git).calls@.last().answer), r)
            }
        }),
{
    let timeslots = config.get_timeslots();
    proof {
        assert(slots_view(timeslots@) =~= spec_timeslots(config.data.timeslots@, spec_timezone(config.data)));
    }
    if timeslots.len() == 0 {
        return PreCommitOutcome::NoTimeslots;
    }
    let is_within_timeslot = is_within_any(timeslots.as_slice(), now);
    if !env.gitclock && !is_within_timeslot {
        return PreCommitOutcome::OutsideTimeslot;
    }
    let read = get_last_commit_date_with_shell(git, now);
    pre_commit_decision(now, env, read)
}

} // verus!
