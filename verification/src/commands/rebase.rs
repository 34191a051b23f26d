//! `gitclock rebase`: rebase keeping each commit's date.

use vstd::prelude::*;
use crate::config::{Config, spec_timeslots, spec_timezone};
use crate::git::{GitShell, GitSession, git_rebase_with_shell, subcommand_args, one_git_call};
use crate::spawn::spec_exit_code;

verus! {

/// What `gitclock rebase` did.
#[derive(Debug)]
pub enum RebaseOutcome {
    /// No valid timeslot is configured.
    NoTimeslots,
    /// `git rebase` ran and exited with `code`.
    Rebased { code: i32 },
}

impl RebaseOutcome {
    /// The exit code of the command.
    pub fn exit_code(&self) -> (r: i32)
        ensures
            r == match self {
                RebaseOutcome::Rebased { code } => *code,
                _ => 1,
            },
    {
        match self {
            RebaseOutcome::Rebased { code } => *code,
            _ => 1,
        }
    }
}

/// The arguments handed to `git rebase`: the committer date is set to the
/// author date, then come the user's `args`.
pub fn rebase_args(args: &[String]) -> (r: Vec<String>)
    ensures
        r.deep_view() == seq!["--committer-date-is-author-date"@] + args.deep_view(),
{
    subcommand_args("--committer-date-is-author-date", args)
}

/// Runs `git rebase --committer-date-is-author-date` with `args`, when
/// timeslots are configured; otherwise runs nothing.
pub fn rebase_with_shell<S: GitShell>(git: &mut GitSession<S>, args: &[String], config: &Config) -> (r: RebaseOutcome)
    ensures
        final(git).shell == old(git).shell,
        (r is NoTimeslots) <==> spec_timeslots(config.data.timeslots@, spec_timezone(config.data)).len() == 0,
        r is NoTimeslots ==> final(git).calls@ == old(git).calls@,
        r matches RebaseOutcome::Rebased { code } ==> {
            &&& one_git_call(old(git).calls@, final(git).calls@,
                seq!["rebase"@, "--committer-date-is-author-date"@] + args.deep_view(), true, seq![])
            &&& code == spec_exit_code(final(git).calls@.last().answer)
        },
{
    let timeslots = config.get_timeslots();
    if timeslots.len() == 0 {
        return RebaseOutcome::NoTimeslots;
    }
    let rebase_args = rebase_args(args);
    let code = git_rebase_with_shell(git, rebase_args.as_slice());
    assert(seq!["rebase"@] + rebase_args.deep_view() =~= seq!["rebase"@, "--committer-date-is-author-date"@]
        + args.deep_view());
    RebaseOutcome::Rebased { code }
}

} // verus!
