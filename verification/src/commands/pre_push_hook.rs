//! `gitclock pre-push-hook`: refuse pushes outside the timeslots, and pushes
//! of commits dated in the future.

use vstd::prelude::*;
use crate::config::{Config, spec_timeslots, spec_timezone, spec_allow_push};
use crate::git::{GitShell, GitSession, GitError, GitFailure, get_push_object_date_with_shell, spec_push_object_date, spec_push_object_date_args, one_git_call, failure_view};
use crate::instant::Instant;
use crate::text::{chars_of, string_of, trim, trim_bounds, words, word_bounds, lemma_words_make_trim_non_empty};
use crate::timeslot::{any_contains, is_within_any};
use crate::commands::commit::slots_view;

verus! {

/// What the pre-push hook decided.
#[derive(Debug)]
pub enum PrePushOutcome {
    /// No valid timeslot is configured.
    NoTimeslots,
    /// `now` is outside every timeslot, pushing outside them is not
    /// allowed, and `gitclock` is not running Git.
    OutsideTimeslot,
    /// The hook's input names nothing to push.
    NothingToPush,
    /// The date of the pushed commit could not be read.
    ObjectDateFailed(GitError),
    /// The pushed commit is dated after `now`.
    FutureCommits { object_date: Instant },
    /// The push may go ahead.
    Passed { object_date: Instant },
}

impl PrePushOutcome {
    /// The exit code of the hook.
    pub fn exit_code(&self) -> (r: i32)
        ensures
            r == if *self is NothingToPush || *self is Passed { 0i32 } else { 1i32 },
    {
        match self {
            PrePushOutcome::NothingToPush => 0,
            PrePushOutcome::Passed { .. } => 0,
            _ => 1,
        }
    }
}

/// The local object that Git's pre-push input names: the second of its
/// words, when the input has at least four.
pub open spec fn spec_pushed_object(stdin_input: Seq<char>) -> Option<Seq<char>> {
    if trim(stdin_input).len() == 0 || words(stdin_input).len() < 4 {
        None
    } else {
        Some(words(stdin_input)[1])
    }
}

/// Whenever the hook's input holds at least four words (as Git writes one
/// line `<local ref> <local object> <remote ref> <remote object>` per pushed
/// ref), the object whose date is checked is the second word; with fewer
/// words there is nothing to check.
pub proof fn law_pushed_object_is_second_word(s: Seq<char>)
    ensures
        words(s).len() >= 4 ==> spec_pushed_object(s) == Some(words(s)[1]),
        words(s).len() < 4 ==> spec_pushed_object(s) is None,
{
    if words(s).len() >= 4 {
        lemma_words_make_trim_non_empty(s);
    }
}

/// The local object that Git's pre-push input (`<local ref> <local object>
/// <remote ref> <remote object>`) names.
pub fn pushed_object_name(stdin_input: &str) -> (r: Option<String>)
    ensures
        match spec_pushed_object(stdin_input@) {
            None => r is None,
            Some(name) => r matches Some(s) && s@ == name,
        },
{
    let v = chars_of(stdin_input);
    let (lo, hi) = trim_bounds(v.as_slice());
    if lo == hi {
        return None;
    }
    let b = word_bounds(v.as_slice(), 0, v.len());
    assert(v@.subrange(0, v@.len() as int) == v@);
    if b.len() < 4 {
        return None;
    }
    Some(string_of(v.as_slice(), b[1].0, b[1].1))
}

/// `r` is what the hook decides once the pushed commit's date was read as
/// `read`: a failure to read it is reported; a date after `now` refuses the
/// push unless `gitclock` runs Git; otherwise the push passes.
pub open spec fn pre_push_follows(now: Instant, gitclock_env: bool, read: Result<Instant, GitFailure>, r: PrePushOutcome) -> bool {
    match read {
        Err(f) => r matches PrePushOutcome::ObjectDateFailed(e) && e@ == f,
        Ok(d) => if !gitclock_env && now.is_before(d) {
            r == (PrePushOutcome::FutureCommits { object_date: d })
        } else {
            r == (PrePushOutcome::Passed { object_date: d })
        },
    }
}

/// What the hook decides once the pushed commit's date was read.
pub fn pre_push_decision(now: Instant, gitclock_env: bool, read: Result<Instant, GitError>) -> (r: PrePushOutcome)
    ensures
        pre_push_follows(now, gitclock_env, failure_view(read), r),
{
    match read {
        Err(e) => PrePushOutcome::ObjectDateFailed(e),
        Ok(object_date) => {
            if !gitclock_env && object_date.is_after(&now) {
                PrePushOutcome::FutureCommits { object_date }
            } else {
                PrePushOutcome::Passed { object_date }
            }
        },
    }
}

/// Decides whether a push at `now`, described to the hook by
/// `stdin_input`, may go ahead: without timeslots, outside them when that is
/// not allowed, or with nothing named to push, it decides without asking
/// Git; otherwise it asks Git for the date of the pushed object
/// (`git show -s --format=%cI <object>`) and decides on the answer.
pub fn pre_push_hook_with_shell<S: GitShell>(now: Instant, git: &mut GitSession<S>, config: &Config, stdin_input: &str, gitclock_env: bool) -> (r: PrePushOutcome)
    requires
        now.valid(),
    ensures
        final(git).shell == old(git).shell,
        ({
            let ts = spec_timeslots(config.data.timeslots@, spec_timezone(config.data));
            let open = gitclock_env || spec_allow_push(config.data) || any_contains(ts, now);
            &&& (r is NoTimeslots) <==> ts.len() == 0
            &&& (r is OutsideTimeslot) <==> (ts.len() > 0 && !open)
            &&& (r is NothingToPush) <==> (ts.len() > 0 && open && spec_pushed_object(stdin_input@) is None)
            &&& (r is NoTimeslots || r is OutsideTimeslot || r is NothingToPush) ==> final(git).calls@ == old(git).calls@
            &&& !(r is NoTimeslots || r is OutsideTimeslot || r is NothingToPush) ==> {
                &&& one_git_call(old(git).calls@, final(git).calls@,
                    spec_push_object_date_args(spec_pushed_object(stdin_input@)->Some_0), false, seq![])
                &&& pre_push_follows(now, gitclock_env, spec_push_object_date(final(git).calls@.last().answer), r)
            }
        }),
{
    let timeslots = config.get_timeslots();
    proof {
        assert(slots_view(timeslots@) =~= spec_timeslots(config.data.timeslots@, spec_timezone(config.data)));
    }
    if timeslots.len() == 0 {
        return PrePushOutcome::NoTimeslots;
    }
    let is_within_timeslot = is_within_any(timeslots.as_slice(), now);
    if !gitclock_env && !config.get_allow_push_outside_timeslot() && !is_within_timeslot {
        return PrePushOutcome::OutsideTimeslot;
    }
    let local_object_name = match pushed_object_name(stdin_input) {
        None => {
            return PrePushOutcome::NothingToPush;
        },
        Some(name) => name,
    };
    let read = get_push_object_date_with_shell(git, local_object_name.as_str());
    pre_push_decision(now, gitclock_env, read)
}

} // verus!
