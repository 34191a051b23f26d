//! `gitclock rewrite-history`: give every commit, oldest first, a new date
//! that falls in the timeslots and keeps the history in date order.

use vstd::prelude::*;
use crate::clock::known_timezone;
use crate::config::{Config, configured_slots, spec_timezone, lemma_slots_need_known_timezone};
use crate::git::{GitShell, GitSession, ShellCall, GitError, GitFailure, spec_log_entries, LogEntry, LogEntrySpec, entries_view, get_log_sha_and_dates_with_shell, reset_hard_with_shell, cherry_pick_with_shell, amend_with_new_date_with_shell, is_git_call, spec_log_args, spec_reset_hard_args, spec_cherry_pick_args, spec_amend_args, spec_date_env, git_date_of};
use crate::instant::Instant;
use crate::text::{chars_of, starts_with};
use crate::timeslot::{Timeslot, TimeslotSpec};
use crate::commands::commit::{slots_view, all_have_suitable_date, all_have_suitable_date_within, spec_earliest, is_next_commit_date, next_commit_date_within, lemma_next_commit_date_not_before, lemma_earliest_not_before, law_commit_date_window, no_date_found, SEARCH_LIMIT_MINUTES};
use crate::instant::MAX_TIMESTAMP;

verus! {

/// The earliest date a rewritten commit may get: the later of its author
/// and committer dates (the committer date on a tie), or the date of the
/// commit rewritten before it when that is later still.
pub open spec fn spec_choose_min(author: Instant, commit: Instant, last: Option<Instant>) -> Instant {
    let own = if commit.is_before(author) { author } else { commit };
    match last {
        Some(l) => if own.is_before(l) { l } else { own },
        None => own,
    }
}

/// The earliest date a rewritten commit may get (see `spec_choose_min`).
pub fn choose_min_date_for_new_commit(existing_author_date: Instant, existing_commit_date: Instant, last_commit_date: Option<Instant>) -> (r: Instant)
    ensures
        r == spec_choose_min(existing_author_date, existing_commit_date, last_commit_date),
        !r.is_before(existing_author_date),
        !r.is_before(existing_commit_date),
        last_commit_date matches Some(l) ==> !r.is_before(l),
{
    let min_date_from_log_entry = if existing_author_date.is_after(&existing_commit_date) {
        existing_author_date
    } else {
        existing_commit_date
    };
    match last_commit_date {
        Some(last) => if last.is_after(&min_date_from_log_entry) { last } else { min_date_from_log_entry },
        None => min_date_from_log_entry,
    }
}

/// One commit that was given a new date.
#[derive(Debug)]
pub struct RewrittenCommit {
    pub sha: String,
    pub min_date: Instant,
    pub new_date: Instant,
}

/// The content of a `RewrittenCommit`.
pub struct RewrittenSpec {
    pub sha: Seq<char>,
    pub min_date: Instant,
    pub new_date: Instant,
}

impl View for RewrittenCommit {
    type V = RewrittenSpec;

    open spec fn view(&self) -> RewrittenSpec {
        RewrittenSpec { sha: self.sha@, min_date: self.min_date, new_date: self.new_date }
    }
}

/// The contents of a list of rewritten commits.
pub open spec fn rewritten_view(v: Seq<RewrittenCommit>) -> Seq<RewrittenSpec> {
    v.map_values(|c: RewrittenCommit| c@)
}

/// Where rewriting starts: at the first commit whose hash starts with
/// `target`, or at the first commit when no target is given.
pub open spec fn is_start(entries: Seq<LogEntrySpec>, target: Option<Seq<char>>, start: int) -> bool {
    match target {
        None => start == 0,
        Some(t) => {
            &&& 0 <= start < entries.len()
            &&& t.is_prefix_of(entries[start].sha)
            &&& forall|j: int| 0 <= j < start ==> !t.is_prefix_of(#[trigger] entries[j].sha)
        },
    }
}

/// The date the `i`-th rewritten commit must not precede: for the first,
/// the committer date of the commit before the start, if any; after that,
/// the new date of the commit rewritten just before.
pub open spec fn previous_date(entries: Seq<LogEntrySpec>, start: int, rw: Seq<RewrittenSpec>, i: int) -> Option<Instant> {
    if i == 0 {
        if start > 0 { Some(entries[start - 1].commit_date) } else { None }
    } else {
        Some(rw[i - 1].new_date)
    }
}

/// The `i`-th rewritten commit is the `start + i`-th entry, its earliest
/// date is chosen from its own dates and the previous date, and its new
/// date is a commit date picked for that earliest date.
pub open spec fn rewrite_step(now: Instant, ts: Seq<TimeslotSpec>, entries: Seq<LogEntrySpec>, start: int, rw: Seq<RewrittenSpec>, i: int) -> bool {
    let e = entries[start + i];
    &&& rw[i].sha == e.sha
    &&& rw[i].min_date == spec_choose_min(e.author_date, e.commit_date, previous_date(entries, start, rw, i))
    &&& all_have_suitable_date(ts, rw[i].min_date)
    &&& is_next_commit_date(now, ts, rw[i].min_date, rw[i].new_date)
}

/// `rw` is a rewrite, step by step, of the entries from `start` on.
pub open spec fn rewrite_chain(now: Instant, ts: Seq<TimeslotSpec>, entries: Seq<LogEntrySpec>, start: int, rw: Seq<RewrittenSpec>) -> bool {
    &&& 0 <= start
    &&& start + rw.len() <= entries.len()
    &&& forall|i: int| 0 <= i < rw.len() ==> #[trigger] rewrite_step(now, ts, entries, start, rw, i)
}

/// The earliest date chosen for a commit is no earlier than its author
/// date, its committer date, or the previous date given.
pub proof fn lemma_choose_min_bounds(author: Instant, commit: Instant, last: Option<Instant>)
    ensures
        !spec_choose_min(author, commit, last).is_before(author),
        !spec_choose_min(author, commit, last).is_before(commit),
        last matches Some(l) ==> !spec_choose_min(author, commit, last).is_before(l),
{
}

/// A rewrite keeps the history in date order: every new date is no earlier
/// than the commit's own author and committer dates, nor than the new date
/// of the commit rewritten before it (for the first commit, the committer
/// date of the commit before the start); each new date after the first is
/// strictly later than the one before, unless it is `now` itself.
pub proof fn law_rewrite_keeps_date_order(now: Instant, ts: Seq<TimeslotSpec>, entries: Seq<LogEntrySpec>, start: int, rw: Seq<RewrittenSpec>)
    requires
        ts.len() > 0,
        rewrite_chain(now, ts, entries, start, rw),
    ensures
        forall|i: int| 0 <= i < rw.len() ==> {
            &&& !(#[trigger] rw[i]).new_date.is_before(entries[start + i].author_date)
            &&& !rw[i].new_date.is_before(entries[start + i].commit_date)
            &&& previous_date(entries, start, rw, i) matches Some(p) ==> !rw[i].new_date.is_before(p)
        },
        forall|i: int| 1 <= i < rw.len() ==> !(#[trigger] rw[i]).new_date.is_before(rw[i - 1].new_date),
        forall|i: int| 1 <= i < rw.len() ==> (#[trigger] rw[i]).new_date == now || rw[i - 1].new_date.is_before(
            rw[i].new_date,
        ),
{
    assert forall|i: int| 0 <= i < rw.len() implies {
        &&& !(#[trigger] rw[i]).new_date.is_before(entries[start + i].author_date)
        &&& !rw[i].new_date.is_before(entries[start + i].commit_date)
        &&& previous_date(entries, start, rw, i) matches Some(p) ==> !rw[i].new_date.is_before(p)
    } by {
        assert(rewrite_step(now, ts, entries, start, rw, i));
        let e = entries[start + i];
        lemma_choose_min_bounds(e.author_date, e.commit_date, previous_date(entries, start, rw, i));
        lemma_next_commit_date_not_before(now, ts, rw[i].min_date, rw[i].new_date);
    }
    assert forall|i: int| 1 <= i < rw.len() implies !(#[trigger] rw[i]).new_date.is_before(rw[i - 1].new_date) by {
        assert(previous_date(entries, start, rw, i) == Some(rw[i - 1].new_date));
        assert(!rw[i].new_date.is_before(entries[start + i].author_date));
    }
    assert forall|i: int| 1 <= i < rw.len() implies (#[trigger] rw[i]).new_date == now || rw[i - 1].new_date.is_before(
        rw[i].new_date,
    ) by {
        assert(rewrite_step(now, ts, entries, start, rw, i));
        let e = entries[start + i];
        assert(previous_date(entries, start, rw, i) == Some(rw[i - 1].new_date));
        lemma_choose_min_bounds(e.author_date, e.commit_date, previous_date(entries, start, rw, i));
        lemma_earliest_not_before(ts, rw[i].min_date);
        law_commit_date_window(now, ts, rw[i].min_date, rw[i].new_date);
    }
}

/// What `gitclock rewrite-history` did.
#[derive(Debug)]
pub enum RewriteOutcome {
    /// No valid timeslot is configured.
    NoTimeslots,
    /// The log could not be read.
    LogFailed(GitError),
    /// The log holds no commit.
    NoEntries,
    /// No commit's hash starts with the given text.
    CommitNotFound(String),
    /// The commits from `start` on were being rewritten, those in
    /// `rewritten` were, and the next one has no suitable date within a
    /// year.
    NoSuitableDate { entries: Vec<LogEntry>, start: usize, rewritten: Vec<RewrittenCommit> },
    /// The commits from `start` on were rewritten, as `rewritten` lists.
    Rewritten { entries: Vec<LogEntry>, start: usize, rewritten: Vec<RewrittenCommit> },
}

impl RewriteOutcome {
    /// The exit code of the command.
    pub fn exit_code(&self) -> (r: i32)
        ensures
            r == if *self is NoEntries || *self is Rewritten { 0i32 } else { 1i32 },
    {
        match self {
            RewriteOutcome::NoEntries => 0,
            RewriteOutcome::Rewritten { .. } => 0,
            _ => 1,
        }
    }
}

/// The index of the first entry whose hash starts with `target`.
pub fn find_commit(entries: &Vec<LogEntry>, target: &str) -> (r: Option<usize>)
    ensures
        match r {
            Some(i) => is_start(entries_view(entries@), Some(target@), i as int),
            None => forall|j: int| 0 <= j < entries@.len() ==> !target@.is_prefix_of(#[trigger] entries@[j].sha@),
        },
{
    let t = chars_of(target);
    for i in 0..entries.len()
        invariant
            t@ == target@,
            forall|j: int| 0 <= j < i ==> !target@.is_prefix_of(#[trigger] entries@[j].sha@),
    {
        let sha = chars_of(entries[i].sha.as_str());
        if starts_with(sha.as_slice(), t.as_slice()) {
            proof {
                let es = entries_view(entries@);
                assert forall|j: int| 0 <= j < i implies !target@.is_prefix_of(#[trigger] es[j].sha) by {
                    assert(es[j].sha == entries@[j].sha@);
                }
            }
            return Some(i);
        }
    }
    None
}

/// The `k`-th rewritten commit's two runs: a reset to it (the first commit)
/// or a cherry-pick of it (the later ones), then an amend with its new date
/// written in the zone `tz`, as author and committer date.
pub open spec fn rewrite_calls_step(calls: Seq<ShellCall>, tz: Seq<char>, rw: Seq<RewrittenSpec>, k: int) -> bool {
    &&& is_git_call(
        calls[2 * k],
        if k == 0 { spec_reset_hard_args(rw[k].sha) } else { spec_cherry_pick_args(rw[k].sha) },
        true,
        seq![],
    )
    &&& is_git_call(
        calls[2 * k + 1],
        spec_amend_args(git_date_of(rw[k].new_date, tz)),
        true,
        spec_date_env(git_date_of(rw[k].new_date, tz)),
    )
}

/// `calls` are exactly the runs that rewriting the commits `rw` makes, two
/// per commit, in order.
pub open spec fn rewrite_calls_match(calls: Seq<ShellCall>, tz: Seq<char>, rw: Seq<RewrittenSpec>) -> bool {
    &&& calls.len() == 2 * rw.len()
    &&& forall|k: int| 0 <= k < rw.len() ==> #[trigger] rewrite_calls_step(calls, tz, rw, k)
}

/// Some commit's hash starts with `target` (always so without a target).
pub open spec fn has_start(entries: Seq<LogEntrySpec>, target: Option<Seq<char>>) -> bool {
    match target {
        None => true,
        Some(t) => exists|j: int| 0 <= j < entries.len() && t.is_prefix_of(#[trigger] entries[j].sha),
    }
}

/// The commits from `start` on are rewritten as `rw`, step by step, and
/// `calls` are the runs that made it.
pub open spec fn rewrite_done(now: Instant, ts: Seq<TimeslotSpec>, tz: Seq<char>, target: Option<Seq<char>>, es: Seq<LogEntrySpec>, start: int, rw: Seq<RewrittenSpec>, calls: Seq<ShellCall>) -> bool {
    &&& is_start(es, target, start)
    &&& rewrite_chain(now, ts, es, start, rw)
    &&& rewrite_calls_match(calls, tz, rw)
}

/// `r` follows from the runs `calls` that the rewrite made with the
/// timeslots `ts` of the zone `tz`: it asks Git for the log; a log that
/// cannot be read, an empty log or a missing start commit ends it there;
/// otherwise every commit from the start on is rewritten, unless one has no
/// suitable date, where the rewrite stops before touching that commit.
pub open spec fn rewrite_follows(now: Instant, ts: Seq<TimeslotSpec>, tz: Seq<char>, target: Option<Seq<char>>, calls: Seq<ShellCall>, r: RewriteOutcome) -> bool {
    &&& calls.len() >= 1
    &&& is_git_call(calls[0], spec_log_args(), false, seq![])
    &&& match spec_log_entries(calls[0].answer) {
        Err(f) => calls.len() == 1 && (r matches RewriteOutcome::LogFailed(e) && e@ == f),
        Ok(es) => if es.len() == 0 {
            calls.len() == 1 && r is NoEntries
        } else if !has_start(es, target) {
            calls.len() == 1 && (r matches RewriteOutcome::CommitNotFound(t) && target == Some(t@))
        } else {
            match r {
                RewriteOutcome::Rewritten { entries, start, rewritten } => {
                    &&& entries_view(entries@) == es
                    &&& start + rewritten@.len() == es.len()
                    &&& rewrite_done(now, ts, tz, target, es, start as int, rewritten_view(rewritten@), calls.skip(1))
                },
                RewriteOutcome::NoSuitableDate { entries, start, rewritten } => {
                    let rw = rewritten_view(rewritten@);
                    let e = es[start + rw.len()];
                    &&& entries_view(entries@) == es
                    &&& start + rw.len() < es.len()
                    &&& rewrite_done(now, ts, tz, target, es, start as int, rw, calls.skip(1))
                    &&& no_date_found(ts, spec_choose_min(e.author_date, e.commit_date, previous_date(es, start as int, rw, rw.len() as int)))
                },
                _ => false,
            }
        },
    }
}

/// Two more runs for one more rewritten commit keep the runs matching.
pub proof fn lemma_rewrite_calls_extend(calls: Seq<ShellCall>, tz: Seq<char>, rw: Seq<RewrittenSpec>, a: ShellCall, b: ShellCall, c: RewrittenSpec)
    requires
        rewrite_calls_match(calls, tz, rw),
        is_git_call(a, if rw.len() == 0 { spec_reset_hard_args(c.sha) } else { spec_cherry_pick_args(c.sha) }, true, seq![]),
        is_git_call(b, spec_amend_args(git_date_of(c.new_date, tz)), true, spec_date_env(git_date_of(c.new_date, tz))),
    ensures
        rewrite_calls_match(calls.push(a).push(b), tz, rw.push(c)),
{
    let nc = calls.push(a).push(b);
    let nr = rw.push(c);
    assert forall|k: int| 0 <= k < nr.len() implies #[trigger] rewrite_calls_step(nc, tz, nr, k) by {
        if k < rw.len() {
            assert(rewrite_calls_step(calls, tz, rw, k));
            assert(nc[2 * k] == calls[2 * k]);
            assert(nc[2 * k + 1] == calls[2 * k + 1]);
            assert(nr[k] == rw[k]);
        } else {
            assert(nc[2 * k] == a);
            assert(nc[2 * k + 1] == b);
            assert(nr[k] == c);
        }
    }
}

/// The amends a rewrite runs follow one another in date order: the `k`-th
/// amend writes the `k`-th new date, which is no earlier than the commit's
/// own dates, and each one after the first is strictly later than the one
/// before, unless it is `now` itself.
pub proof fn law_rewrite_amends_in_date_order(now: Instant, ts: Seq<TimeslotSpec>, tz: Seq<char>, target: Option<Seq<char>>, es: Seq<LogEntrySpec>, start: int, rw: Seq<RewrittenSpec>, calls: Seq<ShellCall>)
    requires
        ts.len() > 0,
        rewrite_done(now, ts, tz, target, es, start, rw, calls),
    ensures
        forall|k: int| 0 <= k < rw.len() ==> {
            &&& (#[trigger] calls[2 * k + 1]).args == spec_amend_args(git_date_of(rw[k].new_date, tz))
            &&& !rw[k].new_date.is_before(es[start + k].author_date)
            &&& !rw[k].new_date.is_before(es[start + k].commit_date)
        },
        forall|k: int| 1 <= k < rw.len() ==> (#[trigger] rw[k]).new_date == now || rw[k - 1].new_date.is_before(
            rw[k].new_date,
        ),
{
    law_rewrite_keeps_date_order(now, ts, es, start, rw);
    assert forall|k: int| 0 <= k < rw.len() implies (#[trigger] calls[2 * k + 1]).args == spec_amend_args(
        git_date_of(rw[k].new_date, tz),
    ) by {
        assert(rewrite_calls_step(calls, tz, rw, k));
    }
    assert forall|k: int| 0 <= k < rw.len() implies {
        &&& !(#[trigger] rw[k]).new_date.is_before(es[start + k].author_date)
        &&& !rw[k].new_date.is_before(es[start + k].commit_date)
    } by {
    }
}

/// In a rewrite that succeeds, the runs after the log are one reset or
/// cherry-pick and one amend for each commit from the start on, and the
/// dates the amends write keep the history in order: each is no earlier
/// than the commit's own dates nor than the date before it (for the first,
/// the committer date of the commit before the start), and each after the
/// first is strictly later than the one before unless it is `now`.
pub proof fn law_successful_rewrite_amends_in_order(now: Instant, ts: Seq<TimeslotSpec>, tz: Seq<char>, target: Option<Seq<char>>, calls: Seq<ShellCall>, r: RewriteOutcome)
    requires
        ts.len() > 0,
        rewrite_follows(now, ts, tz, target, calls, r),
        r is Rewritten,
    ensures
        r matches RewriteOutcome::Rewritten { entries, start, rewritten } ==> {
            let es = entries_view(entries@);
            let rw = rewritten_view(rewritten@);
            &&& rw.len() == es.len() - start
            &&& calls.len() == 1 + 2 * rw.len()
            &&& forall|k: int| 0 <= k < rw.len() ==> {
                &&& (#[trigger] calls[2 * k + 2]).args == spec_amend_args(git_date_of(rw[k].new_date, tz))
                &&& !rw[k].new_date.is_before(es[start + k].author_date)
                &&& !rw[k].new_date.is_before(es[start + k].commit_date)
                &&& (previous_date(es, start as int, rw, k) matches Some(p) ==> !rw[k].new_date.is_before(p))
            }
            &&& forall|k: int| 1 <= k < rw.len() ==> (#[trigger] rw[k]).new_date == now || rw[k - 1].new_date.is_before(
                rw[k].new_date,
            )
        },
{
    if let RewriteOutcome::Rewritten { entries, start, rewritten } = r {
        let es = entries_view(entries@);
        let rw = rewritten_view(rewritten@);
        let rest = calls.skip(1);
        law_rewrite_keeps_date_order(now, ts, es, start as int, rw);
        law_rewrite_amends_in_date_order(now, ts, tz, target, es, start as int, rw, rest);
        assert forall|k: int| 0 <= k < rw.len() implies (#[trigger] calls[2 * k + 2]).args == spec_amend_args(
            git_date_of(rw[k].new_date, tz),
        ) by {
            assert(calls[2 * k + 2] == rest[2 * k + 1]);
        }
    }
}

/// Gives every commit from the start on, oldest first, a new date: the
/// commit at the start is checked out (`git reset --hard`), each later one
/// is cherry-picked, and each is amended with a date picked as
/// `gitclock commit` picks it, from the later of its own dates and the new
/// date of the commit before (for the first, the commit before the start).
pub fn rewrite_history_with_shell<S: GitShell>(now: Instant, git: &mut GitSession<S>, from_commit: Option<&str>, config: &Config) -> (r: RewriteOutcome)
    requires
        now.valid(),
    ensures
        final(git).shell == old(git).shell,
        old(git).calls@.is_prefix_of(final(git).calls@),
        (r is NoTimeslots) <==> configured_slots(config.data).len() == 0,
        r is NoTimeslots ==> final(git).calls@ == old(git).calls@,
        !(r is NoTimeslots) ==> rewrite_follows(now, configured_slots(config.data), spec_timezone(config.data),
            match from_commit { Some(t) => Some(t@), None => None }, final(git).calls@.skip(old(git).calls@.len() as int), r),
{
    let ghost start_calls = git.calls@;
    let ghost shell0 = git.shell;
    let ghost target = match from_commit { Some(t) => Some(t@), None => None };
    let timeslots = config.get_timeslots();
    let ghost ts = configured_slots(config.data);
    proof {
        assert(slots_view(timeslots@) =~= ts);
        lemma_slots_need_known_timezone(config.data.timeslots@, spec_timezone(config.data));
    }
    if timeslots.len() == 0 {
        return RewriteOutcome::NoTimeslots;
    }
    let timezone = config.get_timezone();
    let log = get_log_sha_and_dates_with_shell(git);
    let ghost c_log = git.calls@.last();
    assert(git.calls@.skip(start_calls.len() as int) =~= seq![c_log]);
    let entries = match log {
        Ok(v) => v,
        Err(e) => {
            return RewriteOutcome::LogFailed(e);
        },
    };
    let ghost es = entries_view(entries@);
    if entries.len() == 0 {
        assert(es =~= Seq::<LogEntrySpec>::empty());
        return RewriteOutcome::NoEntries;
    }
    let start = match from_commit {
        Some(target_str) => match find_commit(&entries, target_str) {
            Some(i) => i,
            None => {
                proof {
                    assert forall|j: int| 0 <= j < es.len() implies !target_str@.is_prefix_of(#[trigger] es[j].sha) by {
                        assert(es[j].sha == entries@[j].sha@);
                    }
                }
                return RewriteOutcome::CommitNotFound(String::from_str(target_str));
            },
        },
        None => 0,
    };
    proof {
        if let Some(t) = target {
            assert(is_start(es, target, start as int));
            assert(t.is_prefix_of(es[start as int].sha));
        }
        assert(has_start(es, target));
        assert(git.calls@.skip(start_calls.len() + 1 as int) =~= Seq::<ShellCall>::empty());
    }
    let mut last: Option<Instant> = if start > 0 { Some(entries[start - 1].commit_date) } else { None };
    let mut rewritten: Vec<RewrittenCommit> = Vec::new();
    let n = entries.len();
    let mut i = start;
    while i < n
        invariant
            n == entries@.len(),
            es == entries_view(entries@),
            start <= i <= n,
            start < n,
            now.valid(),
            ts == slots_view(timeslots@),
            ts == configured_slots(config.data),
            timeslots@.len() > 0,
            ts.len() > 0,
            is_start(es, target, start as int),
            forall|j: int| 0 <= j < timeslots@.len() ==> (#[trigger] timeslots@[j])@.wf(),
            known_timezone(timezone@),
            timezone@ == spec_timezone(config.data),
            forall|j: int| 0 <= j < entries@.len() ==> (#[trigger] entries@[j]).author_date.valid() && entries@[j].commit_date.valid(),
            rewritten@.len() == i - start,
            rewrite_chain(now, ts, es, start as int, rewritten_view(rewritten@)),
            last == previous_date(es, start as int, rewritten_view(rewritten@), (i - start) as int),
            last matches Some(l) ==> l.valid(),
            git.shell == shell0,
            spec_log_entries(c_log.answer) == Ok::<Seq<LogEntrySpec>, GitFailure>(es),
            has_start(es, target),
            target == match from_commit { Some(t) => Some(t@), None => None },
            is_git_call(c_log, spec_log_args(), false, seq![]),
            shell0 == old(git).shell,
            start_calls == old(git).calls@,
            git.calls@.len() == start_calls.len() + 1 + 2 * (i - start),
            git.calls@.take(start_calls.len() + 1 as int) == start_calls.push(c_log),
            rewrite_calls_match(git.calls@.skip(start_calls.len() + 1 as int), timezone@, rewritten_view(rewritten@)),
        decreases n - i,
    {
        let entry = &entries[i];
        assert(es[i as int] == entry@);
        let min_date = choose_min_date_for_new_commit(entry.author_date, entry.commit_date, last);
        assert(min_date.valid());
        let new_date = match next_commit_date_within(now, min_date, timeslots.as_slice(), SEARCH_LIMIT_MINUTES) {
            Some(d) => d,
            None => {
                proof {
                    assert(git.calls@.skip(start_calls.len() as int).skip(1) =~= git.calls@.skip(start_calls.len() + 1 as int));
                    assert(git.calls@.take(start_calls.len() + 1 as int)[start_calls.len() as int] == c_log);
                    assert(git.calls@.skip(start_calls.len() as int)[0] == c_log);
                    let rw = rewritten_view(rewritten@);
                    assert(rw.len() == i - start);
                    assert(es[start + rw.len()] == entry@);
                    assert(no_date_found(ts, min_date));
                    assert(rewrite_done(now, ts, timezone@, target, es, start as int, rw, git.calls@.skip(start_calls.len() + 1 as int)));
                }
                return RewriteOutcome::NoSuitableDate { entries, start, rewritten };
            },
        };
        let ghost calls_before = git.calls@;
        if i == start {
            reset_hard_with_shell(git, entry.sha.as_str());
        } else {
            cherry_pick_with_shell(git, entry.sha.as_str());
        }
        let ghost a = git.calls@.last();
        assert(git.calls@ =~= calls_before.push(a));
        let ghost calls_mid = git.calls@;
        amend_with_new_date_with_shell(git, new_date, timezone.as_str());
        let ghost b = git.calls@.last();
        assert(git.calls@ =~= calls_mid.push(b));
        let ghost before = rewritten_view(rewritten@);
        rewritten.push(RewrittenCommit { sha: entry.sha.clone(), min_date, new_date });
        proof {
            let rw = rewritten_view(rewritten@);
            assert(rw == before.push(rw[(i - start) as int]));
            assert(git.calls@ == calls_before.push(a).push(b));
            assert(git.calls@.skip(start_calls.len() + 1 as int) =~= calls_before.skip(start_calls.len() + 1 as int).push(a).push(b));
            assert(git.calls@.take(start_calls.len() + 1 as int) =~= calls_before.take(start_calls.len() + 1 as int));
            lemma_rewrite_calls_extend(calls_before.skip(start_calls.len() + 1 as int), timezone@, before, a, b, rw[(i - start) as int]);
            assert forall|k: int| 0 <= k < ts.len() implies (#[trigger] ts[k]).has_suitable_date(min_date) by {
                assert(ts[k].has_suitable_date_within(min_date, SEARCH_LIMIT_MINUTES as nat));
                let w = choose|w: nat| w <= SEARCH_LIMIT_MINUTES && ts[k].suitable_after(min_date, w);
                assert(ts[k].suitable_after(min_date, w));
            }
            assert forall|k: int| 0 <= k < rw.len() implies #[trigger] rewrite_step(now, ts, es, start as int, rw, k) by {
                if k < before.len() {
                    assert(rw[k] == before[k]);
                    if k > 0 {
                        assert(rw[k - 1] == before[k - 1]);
                    }
                    assert(rewrite_step(now, ts, es, start as int, before, k));
                }
            }
        }
        last = Some(new_date);
        i += 1;
    }
    proof {
        assert(git.calls@.skip(start_calls.len() as int).skip(1) =~= git.calls@.skip(start_calls.len() + 1 as int));
        assert(git.calls@.take(start_calls.len() + 1 as int)[start_calls.len() as int] == c_log);
                    assert(git.calls@.skip(start_calls.len() as int)[0] == c_log);
    }
    RewriteOutcome::Rewritten { entries, start, rewritten }
}

} // verus!
