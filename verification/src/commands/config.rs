//! `gitclock config`: set the time zone and the push policy.

use vstd::prelude::*;
use crate::clock::known_timezone;
use crate::config::{Config, ConfigError};

verus! {

/// The options of `gitclock config`.
#[derive(Debug)]
pub struct ConfigOptions {
    pub edit: bool,
    pub allow_push_outside_timeslot: Option<bool>,
    pub timezone: Option<String>,
}

/// What `gitclock config` did to the configuration in memory.
#[derive(Debug)]
pub enum ConfigCommandOutcome {
    /// `--edit` was given: the configuration file is to be opened in an
    /// editor, and nothing else is done.
    EditRequested,
    /// The push policy was set as given (if given), then the time zone was
    /// refused.
    InvalidTimezone { allow_push_set: Option<bool>, error: ConfigError },
    /// The push policy and the time zone were set as given.
    Applied { allow_push_set: Option<bool>, timezone_set: Option<String> },
}

impl ConfigCommandOutcome {
    /// The exit code of the command, saving aside.
    pub fn exit_code(&self) -> (r: i32)
        ensures
            r == if *self is InvalidTimezone { 1i32 } else { 0i32 },
    {
        match self {
            ConfigCommandOutcome::InvalidTimezone { .. } => 1,
            _ => 0,
        }
    }
}

/// Applies the options to the configuration in memory: first the push
/// policy, then the time zone; with `--edit`, nothing.
pub fn run_config_command(config: &mut Config, options: ConfigOptions) -> (r: ConfigCommandOutcome)
    ensures
        final(config).data.timeslots == old(config).data.timeslots,
        final(config).config_name == old(config).config_name,
        options.edit ==> r is EditRequested && final(config).data == old(config).data,
        !options.edit ==> final(config).data.allow_push_outside_timeslot == match options.allow_push_outside_timeslot {
            Some(b) => Some(b),
            None => old(config).data.allow_push_outside_timeslot,
        },
        !options.edit ==> match options.timezone {
            None => r == ConfigCommandOutcome::Applied {
                allow_push_set: options.allow_push_outside_timeslot,
                timezone_set: None,
            } && final(config).data.timezone == old(config).data.timezone,
            Some(tz) => if known_timezone(tz@) {
                (r matches ConfigCommandOutcome::Applied { allow_push_set, timezone_set: Some(set) }
                    && allow_push_set == options.allow_push_outside_timeslot && set@ == tz@)
                    && final(config).data.timezone == Some(tz)
            } else {
                (r matches ConfigCommandOutcome::InvalidTimezone { allow_push_set, error: ConfigError::InvalidTimezone(v) }
                    && allow_push_set == options.allow_push_outside_timeslot && v@ == tz@)
                    && final(config).data.timezone == old(config).data.timezone
            },
        },
{
    if options.edit {
        return ConfigCommandOutcome::EditRequested;
    }
    if let Some(allow_push) = options.allow_push_outside_timeslot {
        config.set_allow_push_outside_timeslot(allow_push);
    }
    match options.timezone {
        None => ConfigCommandOutcome::Applied {
            allow_push_set: options.allow_push_outside_timeslot,
            timezone_set: None,
        },
        Some(timezone) => {
            let shown = timezone.clone();
            match config.set_timezone(timezone) {
                Ok(()) => ConfigCommandOutcome::Applied {
                    allow_push_set: options.allow_push_outside_timeslot,
                    timezone_set: Some(shown),
                },
                Err(error) => ConfigCommandOutcome::InvalidTimezone {
                    allow_push_set: options.allow_push_outside_timeslot,
                    error,
                },
            }
        },
    }
}

} // verus!
