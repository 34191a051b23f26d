//! `gitclock pre-rebase-hook`: refuse rebases outside the timeslots.

use vstd::prelude::*;
use crate::config::{Config, spec_timeslots, spec_timezone};
use crate::instant::Instant;
use crate::timeslot::{any_contains, is_within_any};
use crate::commands::commit::slots_view;

verus! {

/// What the pre-rebase hook decided.
#[derive(Debug)]
pub enum PreRebaseOutcome {
    /// No valid timeslot is configured.
    NoTimeslots,
    /// `now` is outside every timeslot and `gitclock` is not running Git.
    OutsideTimeslot,
    /// The rebase may go ahead.
    Passed,
}

impl PreRebaseOutcome {
    /// The exit code of the hook.
    pub fn exit_code(&self) -> (r: i32)
        ensures
            r == if *self is Passed { 0i32 } else { 1i32 },
    {
        match self {
            PreRebaseOutcome::Passed => 0,
            _ => 1,
        }
    }
}

/// Decides whether a rebase at `now` may go ahead; `gitclock_env` tells
/// whether `gitclock` itself is running Git.
pub fn run_pre_rebase_hook_command(now: Instant, config: &Config, gitclock_env: bool) -> (r: PreRebaseOutcome)
    requires
        now.valid(),
    ensures
        ({
            let ts = spec_timeslots(config.data.timeslots@, spec_timezone(config.data));
            &&& (r is NoTimeslots) <==> ts.len() == 0
            &&& (r is OutsideTimeslot) <==> (ts.len() > 0 && !gitclock_env && !any_contains(ts, now))
            &&& (r is Passed) <==> (ts.len() > 0 && (gitclock_env || any_contains(ts, now)))
        }),
{
    let timeslots = config.get_timeslots();
    proof {
        assert(slots_view(timeslots@) =~= spec_timeslots(config.data.timeslots@, spec_timezone(config.data)));
    }
    if timeslots.len() == 0 {
        return PreRebaseOutcome::NoTimeslots;
    }
    let is_within_timeslot = is_within_any(timeslots.as_slice(), now);
    if !gitclock_env && !is_within_timeslot {
        return PreRebaseOutcome::OutsideTimeslot;
    }
    PreRebaseOutcome::Passed
}

} // verus!
