//! `gitclock push`: push only the commits dated in the past.

use vstd::prelude::*;
use crate::config::{Config, spec_timeslots, spec_timezone, spec_allow_push, configured_slots};
use crate::git::{GitShell, GitSession, ShellCall, GitError, get_first_past_commit_hash_with_shell, get_tracking_remote_and_branch_with_shell, git_push_with_shell, is_git_call, spec_first_past_commit, spec_first_past_commit_args, spec_tracking_remote, spec_tracking_remote_args};
use crate::instant::Instant;
use crate::spawn::spec_exit_code;
use crate::timeslot::{any_contains, is_within_any};
use crate::commands::commit::slots_view;

verus! {

/// What `gitclock push` did.
#[derive(Debug)]
pub enum PushOutcome {
    /// No valid timeslot is configured.
    NoTimeslots,
    /// `now` is outside every timeslot and pushing outside them is not
    /// allowed.
    OutsideTimeslot,
    /// Git could not say what to push, or where.
    GitFailed(GitError),
    /// `git push` ran, pushing `commit_hash` to `branch` on `remote`; it
    /// exited with `code`.
    Pushed { commit_hash: String, remote: String, branch: String, code: i32 },
}

impl PushOutcome {
    /// The exit code of the command.
    pub fn exit_code(&self) -> (r: i32)
        ensures
            r == match self {
                PushOutcome::Pushed { code, .. } => *code,
                _ => 1,
            },
    {
        match self {
            PushOutcome::Pushed { code, .. } => *code,
            _ => 1,
        }
    }
}

/// The arguments of `git push`: the user's `args`, then the remote, then
/// the refspec `<hash>:<branch>`.
pub fn push_refspec_args(args: &[String], remote: &str, commit_hash: &str, branch: &str) -> (r: Vec<String>)
    ensures
        r.deep_view() == args.deep_view() + seq![remote@, commit_hash@ + ":"@ + branch@],
{
    let mut r: Vec<String> = Vec::new();
    for i in 0..args.len()
        invariant
            r.deep_view() == args.deep_view().take(i as int),
    {
        let ghost before = r.deep_view();
        let c = args[i].clone();
        assert(c@ == args@[i as int]@);
        r.push(c);
        assert(r.deep_view() =~= before.push(args@[i as int]@));
        assert(args.deep_view().take(i + 1) =~= args.deep_view().take(i as int).push(args@[i as int]@));
    }
    assert(args.deep_view().take(args@.len() as int) == args.deep_view());
    let ghost before = r.deep_view();
    r.push(String::from_str(remote));
    let mut refspec = String::from_str(commit_hash);
    refspec.append(":");
    refspec.append(branch);
    r.push(refspec);
    assert(r.deep_view() =~= before + seq![remote@, commit_hash@ + ":"@ + branch@]);
    r
}

/// `r` follows from the runs `calls` that the push made, once the timeslot
/// checks let it ask Git: first for the last commit dated no later than
/// `now`, then (if that was answered) for where `git push` pushes to, then
/// (if that was answered) `git push` with the user's `args`, the remote and
/// `<hash>:<branch>`. A question Git did not answer ends the push with its
/// failure.
pub open spec fn push_follows(now: Instant, args: Seq<Seq<char>>, calls: Seq<ShellCall>, r: PushOutcome) -> bool {
    &&& calls.len() >= 1
    &&& is_git_call(calls[0], spec_first_past_commit_args(now), false, seq![])
    &&& match spec_first_past_commit(calls[0].answer) {
        Err(f) => calls.len() == 1 && (r matches PushOutcome::GitFailed(e) && e@ == f),
        Ok(hash) => {
            &&& calls.len() >= 2
            &&& is_git_call(calls[1], spec_tracking_remote_args(), false, seq![])
            &&& match spec_tracking_remote(calls[1].answer) {
                Err(f) => calls.len() == 2 && (r matches PushOutcome::GitFailed(e) && e@ == f),
                Ok((remote, branch)) => {
                    &&& calls.len() == 3
                    &&& is_git_call(calls[2], seq!["push"@] + args + seq![remote, hash + ":"@ + branch], true, seq![])
                    &&& (r matches PushOutcome::Pushed { commit_hash, remote: rm, branch: br, code }
                        && commit_hash@ == hash && rm@ == remote && br@ == branch
                        && code == spec_exit_code(calls[2].answer))
                },
            }
        },
    }
}

/// Pushes the last commit dated no later than `now` to the branch that
/// `git push` pushes to, handing `args` on to `git push`.
pub fn push_with_shell<S: GitShell>(now: Instant, git: &mut GitSession<S>, args: &[String], config: &Config) -> (r: PushOutcome)
    requires
        now.valid(),
    ensures
        final(git).shell == old(git).shell,
        old(git).calls@.is_prefix_of(final(git).calls@),
        (r is NoTimeslots) <==> configured_slots(config.data).len() == 0,
        (r is OutsideTimeslot) <==> (configured_slots(config.data).len() > 0 && !spec_allow_push(config.data)
            && !any_contains(configured_slots(config.data), now)),
        (r is NoTimeslots || r is OutsideTimeslot) ==> final(git).calls@ == old(git).calls@,
        !(r is NoTimeslots || r is OutsideTimeslot) ==> push_follows(now, args.deep_view(),
            final(git).calls@.skip(old(git).calls@.len() as int), r),
{
    let ghost start = git.calls@;
    let timeslots = config.get_timeslots();
    proof {
        assert(slots_view(timeslots@) =~= spec_timeslots(config.data.timeslots@, spec_timezone(config.data)));
    }
    if timeslots.len() == 0 {
        return PushOutcome::NoTimeslots;
    }
    let is_within_timeslot = is_within_any(timeslots.as_slice(), now);
    if !config.get_allow_push_outside_timeslot() && !is_within_timeslot {
        return PushOutcome::OutsideTimeslot;
    }
    let past_result = get_first_past_commit_hash_with_shell(git, now);
    let ghost c0 = git.calls@.last();
    assert(git.calls@.skip(start.len() as int) =~= seq![c0]);
    let past_commit = match past_result {
        Ok(pc) => pc,
        Err(err) => {
            return PushOutcome::GitFailed(err);
        },
    };
    let tracking_result = get_tracking_remote_and_branch_with_shell(git);
    let ghost c1 = git.calls@.last();
    assert(git.calls@.skip(start.len() as int) =~= seq![c0, c1]);
    let tracking = match tracking_result {
        Ok(t) => t,
        Err(err) => {
            return PushOutcome::GitFailed(err);
        },
    };
    let push_args = push_refspec_args(args, tracking.remote.as_str(), past_commit.commit_hash.as_str(), tracking.branch.as_str());
    let code = git_push_with_shell(git, push_args.as_slice());
    let ghost c2 = git.calls@.last();
    assert(git.calls@.skip(start.len() as int) =~= seq![c0, c1, c2]);
    assert(seq!["push"@] + push_args.deep_view() =~= seq!["push"@] + args.deep_view() + seq![
        tracking.remote@, past_commit.commit_hash@ + ":"@ + tracking.branch@]);
    let commit_hash = past_commit.commit_hash;
    let remote = tracking.remote;
    let branch = tracking.branch;
    PushOutcome::Pushed { commit_hash, remote, branch, code }
}

} // verus!
