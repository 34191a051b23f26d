//! `gitclock commit`: commit with the next date that falls in a timeslot.

use vstd::prelude::*;
use crate::clock::known_timezone;
use crate::config::{Config, spec_timeslots, spec_timezone, lemma_slots_need_known_timezone};
use crate::git::{GitShell, GitSession, ShellCall, GitError, get_last_commit_date_with_shell, git_commit_with_shell, spec_last_commit_date, spec_last_commit_date_args, spec_commit_args, spec_date_env, git_date_of, is_git_call};
use crate::instant::{Instant, MAX_TIMESTAMP};
use crate::random::random_in_range;
use crate::spawn::spec_exit_code;
use crate::timeslot::{Timeslot, TimeslotSpec, any_contains, law_next_suitable_of_contained_date};

verus! {

/// The least number of minutes added after the earliest suitable date.
pub const MIN_TIME_BETWEEN_COMMITS_MINUTES: u32 = 1;

/// The greatest number of minutes added after the earliest suitable date.
pub const MAX_TIME_BETWEEN_COMMITS_MINUTES: u32 = 15;

/// How far, in minutes, the search for a suitable date goes: one leap year.
pub const SEARCH_LIMIT_MINUTES: u32 = 527_040;

/// The contents of a list of timeslots.
pub open spec fn slots_view(ts: Seq<Timeslot>) -> Seq<TimeslotSpec> {
    ts.map_values(|t: Timeslot| t@)
}

/// Every timeslot's time zone is known.
pub open spec fn all_zones_known(ts: Seq<TimeslotSpec>) -> bool {
    forall|i: int| 0 <= i < ts.len() ==> known_timezone((#[trigger] ts[i]).timezone)
}

/// Every timeslot has a suitable date from `min` on.
pub open spec fn all_have_suitable_date(ts: Seq<TimeslotSpec>, min: Instant) -> bool {
    forall|i: int| 0 <= i < ts.len() ==> (#[trigger] ts[i]).has_suitable_date(min)
}

/// Every timeslot has a suitable date from `min` on, at most `max_minutes`
/// minutes later.
pub open spec fn all_have_suitable_date_within(ts: Seq<TimeslotSpec>, min: Instant, max_minutes: nat) -> bool {
    forall|i: int| 0 <= i < ts.len() ==> (#[trigger] ts[i]).has_suitable_date_within(min, max_minutes)
}

/// The earliest of the timeslots' next suitable dates from `min` (the first
/// timeslot's on a tie).
pub open spec fn spec_earliest(ts: Seq<TimeslotSpec>, min: Instant) -> Instant
    decreases ts.len(),
{
    if ts.len() <= 1 {
        ts[0].next_suitable(min)
    } else {
        let earlier = spec_earliest(ts.drop_last(), min);
        let candidate = ts.last().next_suitable(min);
        if candidate.is_before(earlier) {
            candidate
        } else {
            earlier
        }
    }
}

/// The commit date picked from the earliest suitable date: `now` itself when
/// that date is `now`, else that date plus `minutes` minutes and `seconds`
/// seconds.
pub open spec fn jittered(now: Instant, earliest: Instant, minutes: nat, seconds: nat) -> Instant {
    if now == earliest {
        now
    } else {
        earliest.plus_seconds(60 * minutes as int).plus_seconds(seconds as int)
    }
}

/// `date` is a commit date that may be picked from the earliest suitable
/// date `earliest`: some 1 to 15 minutes and some seconds, up to the end of
/// that minute, later (or `now` itself when `earliest` is `now`).
pub open spec fn is_jittered_from(now: Instant, earliest: Instant, date: Instant) -> bool {
    exists|minutes: nat, seconds: nat|
        MIN_TIME_BETWEEN_COMMITS_MINUTES <= minutes <= MAX_TIME_BETWEEN_COMMITS_MINUTES && seconds
            <= 59 - earliest.second_of_minute() && date == #[trigger] jittered(
            now,
            earliest,
            minutes,
            seconds,
        )
}

/// `date` is a commit date that may be picked for `min` with these timeslots.
pub open spec fn is_next_commit_date(now: Instant, ts: Seq<TimeslotSpec>, min: Instant, date: Instant) -> bool {
    is_jittered_from(now, spec_earliest(ts, min), date)
}

/// The earliest of the timeslots' next suitable dates from `min_date`.
pub fn earliest_suitable_date(timeslots: &[Timeslot], min_date: Instant) -> (r: Instant)
    requires
        timeslots@.len() > 0,
        min_date.valid(),
        all_zones_known(slots_view(timeslots@)),
        all_have_suitable_date(slots_view(timeslots@), min_date),
    ensures
        r == spec_earliest(slots_view(timeslots@), min_date),
        r.valid(),
        !r.is_before(min_date),
{
    let ghost ts = slots_view(timeslots@);
    assert(ts[0] == timeslots@[0]@);
    let mut best = timeslots[0].next_suitable_date(min_date);
    let n = timeslots.len();
    assert(ts.take(1).len() == 1 && ts.take(1)[0] == ts[0]);
    for i in 1..n
        invariant
            n == timeslots@.len(),
            ts == slots_view(timeslots@),
            min_date.valid(),
            all_zones_known(ts),
            all_have_suitable_date(ts, min_date),
            best == spec_earliest(ts.take(i as int), min_date),
            best.valid(),
            !best.is_before(min_date),
    {
        assert(ts[i as int] == timeslots@[i as int]@);
        let candidate = timeslots[i].next_suitable_date(min_date);
        assert(ts.take(i + 1).drop_last() == ts.take(i as int));
        assert(ts.take(i + 1).last() == ts[i as int]);
        if candidate.is_after(&best) || candidate.same_as(&best) {
        } else {
            best = candidate;
        }
    }
    assert(ts.take(n as int) == ts);
    best
}

/// The commit date `minutes` minutes and `seconds` seconds after the
/// earliest suitable date, or `now` when that date is `now`.
pub fn jitter_commit_date(now: Instant, earliest: Instant, minutes: u32, seconds: u32) -> (r: Instant)
    requires
        now.valid(),
        earliest.valid(),
        earliest.secs + 60 * minutes + seconds <= MAX_TIMESTAMP,
    ensures
        r == jittered(now, earliest, minutes as nat, seconds as nat),
        r.valid(),
{
    if now.same_as(&earliest) {
        return now;
    }
    let later = earliest.add_seconds(60 * minutes as i64);
    later.add_seconds(seconds as i64)
}

/// The date for the next commit: the earliest of the timeslots' next
/// suitable dates from `min_date`, plus 1 to 15 minutes and a number of
/// seconds up to the end of that minute, picked at random; `now` itself
/// when the earliest suitable date is `now`.
pub fn get_next_commit_date(now: Instant, min_date: Instant, timeslots: &[Timeslot]) -> (r: Instant)
    requires
        timeslots@.len() > 0,
        now.valid(),
        min_date.valid(),
        all_zones_known(slots_view(timeslots@)),
        all_have_suitable_date(slots_view(timeslots@), min_date),
        spec_earliest(slots_view(timeslots@), min_date).secs + 959 <= MAX_TIMESTAMP,
    ensures
        is_next_commit_date(now, slots_view(timeslots@), min_date, r),
        r.valid(),
{
    let earliest = earliest_suitable_date(timeslots, min_date);
    if now.same_as(&earliest) {
        assert(jittered(now, earliest, 1, 0) == now);
        return now;
    }
    let minutes = random_in_range(MIN_TIME_BETWEEN_COMMITS_MINUTES, MAX_TIME_BETWEEN_COMMITS_MINUTES);
    let second = earliest.second();
    let seconds = random_in_range(0, 60 - second - 1);
    let r = jitter_commit_date(now, earliest, minutes, seconds);
    assert(r == jittered(now, earliest, minutes as nat, seconds as nat));
    r
}

/// The date for the next commit, as `get_next_commit_date` picks it, when
/// every timeslot has a suitable date within `max_minutes` minutes of
/// `min_date`; otherwise `None`.
pub fn next_commit_date_within(now: Instant, min_date: Instant, timeslots: &[Timeslot], max_minutes: u32) -> (r: Option<Instant>)
    requires
        timeslots@.len() > 0,
        now.valid(),
        min_date.valid(),
        all_zones_known(slots_view(timeslots@)),
    ensures
        r is Some <==> all_have_suitable_date_within(slots_view(timeslots@), min_date, max_minutes as nat)
            && spec_earliest(slots_view(timeslots@), min_date).secs + 959 <= MAX_TIMESTAMP,
        r matches Some(d) ==> is_next_commit_date(now, slots_view(timeslots@), min_date, d) && d.valid(),
{
    let ghost ts = slots_view(timeslots@);
    let n = timeslots.len();
    let mut i: usize = 0;
    let mut latest_bound: i64 = 0;
    while i < n
        invariant
            n == timeslots@.len(),
            ts == slots_view(timeslots@),
            i <= n,
            min_date.valid(),
            all_zones_known(ts),
            forall|j: int| 0 <= j < i ==> (#[trigger] ts[j]).has_suitable_date_within(min_date, max_minutes as nat),
        decreases n - i,
    {
        assert(ts[i as int] == timeslots@[i as int]@);
        match timeslots[i].next_suitable_date_within(min_date, max_minutes) {
            None => {
                return None;
            },
            Some(_) => {},
        }
        i += 1;
    }
    proof {
        assert forall|j: int| 0 <= j < ts.len() implies (#[trigger] ts[j]).has_suitable_date(min_date) by {
            assert(ts[j].has_suitable_date_within(min_date, max_minutes as nat));
            let k = choose|k: nat| k <= max_minutes && ts[j].suitable_after(min_date, k);
            assert(ts[j].suitable_after(min_date, k));
        }
    }
    let earliest = earliest_suitable_date(timeslots, min_date);
    if earliest.secs > MAX_TIMESTAMP - 959 {
        return None;
    }
    Some(get_next_commit_date(now, min_date, timeslots))
}

/// What `gitclock commit` did.
#[derive(Debug)]
pub enum CommitOutcome {
    /// No valid timeslot is configured.
    NoTimeslots,
    /// The date of the last commit could not be read.
    LastCommitDateFailed(GitError),
    /// Some timeslot has no suitable date within a year of the last commit
    /// (or of now, whichever is later).
    NoSuitableDate { last_commit_date: Instant },
    /// `git commit` ran with `date`; it exited with `code`.
    Committed { last_commit_date: Instant, date: Instant, code: i32 },
}

impl CommitOutcome {
    /// The exit code of the command.
    pub fn exit_code(&self) -> (r: i32)
        ensures
            r == match self {
                CommitOutcome::Committed { code, .. } => *code,
                _ => 1,
            },
    {
        match self {
            CommitOutcome::Committed { code, .. } => *code,
            _ => 1,
        }
    }
}

/// Some timeslot has no suitable date within a year of `min`, or the
/// earliest one is too close to the end of the supported range.
pub open spec fn no_date_found(ts: Seq<TimeslotSpec>, min: Instant) -> bool {
    !(all_have_suitable_date_within(ts, min, SEARCH_LIMIT_MINUTES as nat) && spec_earliest(ts, min).secs
        + 959 <= MAX_TIMESTAMP)
}

/// `r` follows from the runs `calls` that the commit made with the
/// timeslots `ts` of the zone `tz`: first it asks Git for the last commit's
/// date; if that was read, it picks the date from the later of `now` and
/// that date, and runs `git commit --date <date> <args>` with that date
/// written in `tz` as author and committer date.
pub open spec fn commit_follows(now: Instant, ts: Seq<TimeslotSpec>, tz: Seq<char>, args: Seq<Seq<char>>, calls: Seq<ShellCall>, r: CommitOutcome) -> bool {
    &&& calls.len() >= 1
    &&& is_git_call(calls[0], spec_last_commit_date_args(), false, seq![])
    &&& match spec_last_commit_date(now, calls[0].answer) {
        Err(f) => calls.len() == 1 && (r matches CommitOutcome::LastCommitDateFailed(e) && e@ == f),
        Ok(l) => {
            let min = Instant::later_of(now, l);
            if no_date_found(ts, min) {
                calls.len() == 1 && r == (CommitOutcome::NoSuitableDate { last_commit_date: l })
            } else {
                &&& calls.len() == 2
                &&& r matches CommitOutcome::Committed { last_commit_date, date, code }
                &&& last_commit_date == l
                &&& is_next_commit_date(now, ts, min, date)
                &&& !date.is_before(now)
                &&& !date.is_before(l)
                &&& is_git_call(calls[1], spec_commit_args(git_date_of(date, tz), args), true, spec_date_env(git_date_of(date, tz)))
                &&& code == spec_exit_code(calls[1].answer)
            }
        },
    }
}

/// Commits, handing `args` on to `git commit`, with a date picked by
/// `get_next_commit_date` from the later of `now` and the last commit's
/// date, written in the configured time zone.
pub fn commit_with_shell<S: GitShell>(now: Instant, git: &mut GitSession<S>, args: &[String], config: &Config) -> (r: CommitOutcome)
    requires
        now.valid(),
    ensures
        final(git).shell == old(git).shell,
        old(git).calls@.is_prefix_of(final(git).calls@),
        (r is NoTimeslots) <==> spec_timeslots(config.data.timeslots@, spec_timezone(config.data)).len() == 0,
        r is NoTimeslots ==> final(git).calls@ == old(git).calls@,
        !(r is NoTimeslots) ==> commit_follows(now, spec_timeslots(config.data.timeslots@, spec_timezone(config.data)),
            spec_timezone(config.data), args.deep_view(), final(git).calls@.skip(old(git).calls@.len() as int), r),
{
    let ghost start = git.calls@;
    let timeslots = config.get_timeslots();
    let ghost ts = spec_timeslots(config.data.timeslots@, spec_timezone(config.data));
    proof {
        assert(slots_view(timeslots@) =~= ts);
        lemma_slots_need_known_timezone(config.data.timeslots@, spec_timezone(config.data));
    }
    if timeslots.len() == 0 {
        return CommitOutcome::NoTimeslots;
    }
    let read = get_last_commit_date_with_shell(git, now);
    let ghost c0 = git.calls@.last();
    assert(git.calls@.skip(start.len() as int) =~= seq![c0]);
    let last_commit_date = match read {
        Ok(date) => date,
        Err(e) => {
            return CommitOutcome::LastCommitDateFailed(e);
        },
    };
    let min_date = now.later(&last_commit_date);
    match next_commit_date_within(now, min_date, timeslots.as_slice(), SEARCH_LIMIT_MINUTES) {
        None => CommitOutcome::NoSuitableDate { last_commit_date },
        Some(date) => {
            proof {
                lemma_next_commit_date_not_before(now, ts, min_date, date);
            }
            let timezone = config.get_timezone();
            let code = git_commit_with_shell(git, date, timezone.as_str(), args);
            let ghost c1 = git.calls@.last();
            assert(git.calls@.skip(start.len() as int) =~= seq![c0, c1]);
            CommitOutcome::Committed { last_commit_date, date, code }
        },
    }
}

/// The earliest suitable date never comes before `min`.
pub proof fn lemma_earliest_not_before(ts: Seq<TimeslotSpec>, min: Instant)
    requires
        ts.len() > 0,
        all_have_suitable_date(ts, min),
    ensures
        !spec_earliest(ts, min).is_before(min),
        spec_earliest(ts, min).secs <= MAX_TIMESTAMP,
    decreases ts.len(),
{
    if ts.len() > 1 {
        assert(all_have_suitable_date(ts.drop_last(), min)) by {
            assert forall|i: int| 0 <= i < ts.drop_last().len() implies (#[trigger] ts.drop_last()[i]).has_suitable_date(min) by {
                assert(ts.drop_last()[i] == ts[i]);
            }
        }
        lemma_earliest_not_before(ts.drop_last(), min);
        lemma_next_suitable_not_before(ts.last(), min);
    } else {
        lemma_next_suitable_not_before(ts[0], min);
    }
}

/// A timeslot's next suitable date never comes before `min`.
pub proof fn lemma_next_suitable_not_before(t: TimeslotSpec, min: Instant)
    requires
        t.has_suitable_date(min),
    ensures
        !t.next_suitable(min).is_before(min),
        t.next_suitable(min).secs <= MAX_TIMESTAMP,
{
    let w = choose|k: nat| t.suitable_after(min, k);
    crate::timeslot::lemma_first_suitable_exists(t, min, w);
    let k = choose|k: nat| t.is_first_suitable(min, k);
    assert(t.is_first_suitable(min, k));
}

/// A commit made at a `now` that falls in a timeslot, no earlier than the
/// last commit, is dated `now` itself: the search starts from `now`, which
/// is then the earliest suitable date.
pub proof fn law_commit_inside_slot_is_dated_now(now: Instant, ts: Seq<TimeslotSpec>, last: Instant, date: Instant)
    requires
        now.valid(),
        ts.len() > 0,
        any_contains(ts, now),
        !now.is_before(last),
        all_have_suitable_date(ts, Instant::later_of(now, last)),
        is_next_commit_date(now, ts, Instant::later_of(now, last), date),
    ensures
        date == now,
{
    let min = Instant::later_of(now, last);
    assert(min == now);
    let e = spec_earliest(ts, now);
    law_earliest_is_first_of_all(ts, now);
    lemma_earliest_not_before(ts, now);
    let j = choose|j: int| 0 <= j < ts.len() && (#[trigger] ts[j]).contains(now);
    law_next_suitable_of_contained_date(ts[j], now);
    assert(!ts[j].next_suitable(now).is_before(e));
    assert(e == now);
    let (m, sec) = choose|minutes: nat, seconds: nat|
        MIN_TIME_BETWEEN_COMMITS_MINUTES <= minutes <= MAX_TIME_BETWEEN_COMMITS_MINUTES && seconds
            <= 59 - e.second_of_minute() && date == #[trigger] jittered(now, e, minutes, seconds);
    assert(date == jittered(now, e, m, sec));
}

/// The earliest suitable date is the next suitable date of one of the
/// timeslots, no later than any of theirs; so it falls in that timeslot.
pub proof fn law_earliest_is_first_of_all(ts: Seq<TimeslotSpec>, min: Instant)
    requires
        ts.len() > 0,
        all_have_suitable_date(ts, min),
    ensures
        exists|i: int| 0 <= i < ts.len() && spec_earliest(ts, min) == (#[trigger] ts[i]).next_suitable(min),
        forall|i: int| 0 <= i < ts.len() ==> !(#[trigger] ts[i]).next_suitable(min).is_before(spec_earliest(ts, min)),
        crate::timeslot::any_contains(ts, spec_earliest(ts, min)),
    decreases ts.len(),
{
    if ts.len() > 1 {
        let init = ts.drop_last();
        assert(all_have_suitable_date(init, min)) by {
            assert forall|i: int| 0 <= i < init.len() implies (#[trigger] init[i]).has_suitable_date(min) by {
                assert(init[i] == ts[i]);
            }
        }
        law_earliest_is_first_of_all(init, min);
        let j = choose|i: int| 0 <= i < init.len() && spec_earliest(init, min) == (#[trigger] init[i]).next_suitable(min);
        assert(init[j] == ts[j]);
        assert forall|i: int| 0 <= i < ts.len() implies !(#[trigger] ts[i]).next_suitable(min).is_before(spec_earliest(ts, min)) by {
            if i < init.len() {
                assert(init[i] == ts[i]);
            }
        }
        let e = spec_earliest(ts, min);
        if e == ts.last().next_suitable(min) {
            assert(ts[ts.len() - 1] == ts.last());
            crate::timeslot::law_next_suitable_is_first_in_slot(ts.last(), min);
            assert(ts[ts.len() - 1].contains(e));
        } else {
            crate::timeslot::law_next_suitable_is_first_in_slot(ts[j], min);
            assert(ts[j].contains(e));
        }
    } else {
        crate::timeslot::law_next_suitable_is_first_in_slot(ts[0], min);
        assert(ts[0].contains(spec_earliest(ts, min)));
    }
}

/// A picked commit date is `now` itself when that is the earliest suitable
/// date; otherwise it lies from one minute after the earliest suitable date
/// up to the end of the fifteenth minute after it.
pub proof fn law_commit_date_window(now: Instant, ts: Seq<TimeslotSpec>, min: Instant, date: Instant)
    requires
        ts.len() > 0,
        all_have_suitable_date(ts, min),
        is_next_commit_date(now, ts, min, date),
    ensures
        ({
            let e = spec_earliest(ts, min);
            ||| now == e && date == now
            ||| now != e && e.secs + 60 <= date.secs <= e.secs - e.second_of_minute() + 959
        }),
{
    let e = spec_earliest(ts, min);
    lemma_earliest_not_before(ts, min);
    let (m, sec) = choose|minutes: nat, seconds: nat|
        MIN_TIME_BETWEEN_COMMITS_MINUTES <= minutes <= MAX_TIME_BETWEEN_COMMITS_MINUTES && seconds
            <= 59 - e.second_of_minute() && date == #[trigger] jittered(now, e, minutes, seconds);
    if now != e {
        let a = e.plus_seconds(60 * m as int);
        assert(a.secs == e.secs + 60 * m);
        assert(date.secs == a.secs + sec);
    }
}

/// A picked commit date never comes before the date it was picked for.
pub proof fn lemma_next_commit_date_not_before(now: Instant, ts: Seq<TimeslotSpec>, min: Instant, date: Instant)
    requires
        ts.len() > 0,
        all_have_suitable_date(ts, min),
        is_next_commit_date(now, ts, min, date),
    ensures
        !date.is_before(min),
{
    let e = spec_earliest(ts, min);
    lemma_earliest_not_before(ts, min);
    let (m, sec) = choose|minutes: nat, seconds: nat|
        MIN_TIME_BETWEEN_COMMITS_MINUTES <= minutes <= MAX_TIME_BETWEEN_COMMITS_MINUTES && seconds
            <= 59 - e.second_of_minute() && date == #[trigger] jittered(now, e, minutes, seconds);
    if now != e {
        let a = e.plus_seconds(60 * m as int);
        assert(a.secs == e.secs + 60 * m);
        assert(date.secs == a.secs + sec);
    }
    assert(!date.is_before(e));
}

} // verus!
