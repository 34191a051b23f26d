//! `gitclock timeslot`: add a timeslot, or list them.

use vstd::prelude::*;
use crate::config::{Config, TimeslotConfig, configured_slots, spec_timezone};
use crate::timeslot::{TimeslotError, spec_timeslot, timeslot_text};
use crate::commands::commit::slots_view;

verus! {

/// The options of `gitclock timeslot`.
#[derive(Debug)]
pub struct TimeslotOptions {
    pub add: bool,
    pub list: bool,
    pub days: Option<String>,
    pub start: Option<String>,
    pub end: Option<String>,
}

/// What `gitclock timeslot` did.
#[derive(Debug)]
pub enum TimeslotCommandOutcome {
    /// `--add` and `--list` were both given.
    Incompatible,
    /// `--add` was given without all of `--days`, `--start` and `--end`.
    MissingArguments,
    /// The timeslot to add was refused.
    AddFailed(TimeslotError),
    /// The timeslot was added to the configuration.
    Added,
    /// The timeslots, each described in a sentence.
    Listed(Vec<String>),
    /// Neither `--add` nor `--list` was given.
    NeedAddOrList,
}

impl TimeslotCommandOutcome {
    /// The exit code of the command.
    pub fn exit_code(&self) -> (r: i32)
        ensures
            r == if *self is Added || *self is Listed { 0i32 } else { 1i32 },
    {
        match self {
            TimeslotCommandOutcome::Added => 0,
            TimeslotCommandOutcome::Listed(_) => 0,
            _ => 1,
        }
    }
}

/// Adds a timeslot to the configuration, or lists the configured ones.
pub fn run_timeslot_command(options: TimeslotOptions, config: &mut Config) -> (r: TimeslotCommandOutcome)
    ensures
        !(r is Added) ==> final(config).data.timeslots == old(config).data.timeslots,
        final(config).data.timezone == old(config).data.timezone,
        final(config).data.allow_push_outside_timeslot == old(config).data.allow_push_outside_timeslot,
        (r is Incompatible) <==> (options.add && options.list),
        (r is MissingArguments) <==> (options.add && !options.list && (options.days is None
            || options.start is None || options.end is None)),
        (r is NeedAddOrList) <==> (!options.add && !options.list),
        options.add && !options.list && options.days is Some && options.start is Some && options.end is Some ==> {
            let days = options.days->Some_0;
            let start = options.start->Some_0;
            let end = options.end->Some_0;
            match spec_timeslot(days@, start@, end@, spec_timezone(old(config).data)) {
                Ok(_) => r is Added && final(config).data.timeslots@ == old(config).data.timeslots@.push(
                    TimeslotConfig { days, start, end },
                ),
                Err(e) => r == TimeslotCommandOutcome::AddFailed(e),
            }
        },
        !options.add && options.list ==> (r matches TimeslotCommandOutcome::Listed(lines) && lines@.len()
            == configured_slots(old(config).data).len() && forall|i: int|
            0 <= i < lines@.len() ==> (#[trigger] lines@[i])@ == timeslot_text(configured_slots(old(config).data)[i])),
{
    if options.add && options.list {
        return TimeslotCommandOutcome::Incompatible;
    }
    if options.add {
        let (days, start, end) = match (options.days, options.start, options.end) {
            (Some(d), Some(s), Some(e)) => (d, s, e),
            _ => {
                return TimeslotCommandOutcome::MissingArguments;
            },
        };
        return match config.add_timeslot(days, start, end) {
            Ok(()) => TimeslotCommandOutcome::Added,
            Err(e) => TimeslotCommandOutcome::AddFailed(e),
        };
    }
    if options.list {
        let timeslots = config.get_timeslots();
        let mut lines: Vec<String> = Vec::new();
        for i in 0..timeslots.len()
            invariant
                lines@.len() == i,
                timeslots@.len() == configured_slots(config.data).len(),
                forall|j: int| 0 <= j < timeslots@.len() ==> #[trigger] timeslots@[j]@ == configured_slots(config.data)[j]
                    && timeslots@[j]@.wf(),
                forall|j: int| 0 <= j < i ==> (#[trigger] lines@[j])@ == timeslot_text(configured_slots(config.data)[j]),
        {
            assert(timeslots@[i as int]@.wf());
            lines.push(timeslots[i].to_string());
        }
        return TimeslotCommandOutcome::Listed(lines);
    }
    TimeslotCommandOutcome::NeedAddOrList
}

} // verus!
