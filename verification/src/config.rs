//! The user's configuration: timeslots, time zone and push policy.

use vstd::prelude::*;
use crate::clock::{known_timezone, is_known_timezone};
use crate::random::random_alphanumeric;
use crate::timeslot::{Timeslot, TimeslotSpec, TimeslotError, spec_timeslot, timeslot_error_text};

verus! {

/// A timeslot as the configuration file writes it.
#[derive(Debug, Clone)]
pub struct TimeslotConfig {
    pub days: String,
    pub start: String,
    pub end: String,
}

/// The content of the configuration file.
#[derive(Debug)]
pub struct ConfigData {
    pub timeslots: Vec<TimeslotConfig>,
    pub allow_push_outside_timeslot: Option<bool>,
    pub timezone: Option<String>,
}

impl Default for ConfigData {
    fn default() -> (r: Self)
        ensures
            r.timeslots@.len() == 0,
            r.allow_push_outside_timeslot is None,
            r.timezone is None,
    {
        ConfigData { timeslots: Vec::new(), allow_push_outside_timeslot: None, timezone: None }
    }
}

/// The configuration of a named application: what its file holds, and the
/// name under which that file is stored.
pub struct Config {
    pub data: ConfigData,
    pub config_name: String,
}

/// Why the configuration was refused.
#[derive(Debug)]
pub enum ConfigError {
    /// The time zone, given here, is unknown.
    InvalidTimezone(String),
    /// A timeslot was refused.
    Timeslot(TimeslotError),
}

impl ConfigError {
    /// The message shown for this refusal.
    pub fn message(&self) -> (r: String)
        ensures
            match self {
                ConfigError::InvalidTimezone(value) => r@
                    == "Timezone is invalid, expected something like Europe/Paris, but got "@
                    + value@ + "."@,
                ConfigError::Timeslot(e) => r@ == timeslot_error_text(*e),
            },
    {
        match self {
            ConfigError::InvalidTimezone(value) => {
                let mut r = String::from_str(
                    "Timezone is invalid, expected something like Europe/Paris, but got ",
                );
                r.append(value.as_str());
                r.append(".");
                r
            },
            ConfigError::Timeslot(e) => e.message(),
        }
    }
}

/// The time zone in force: the configured one, else `UTC`.
pub open spec fn spec_timezone(data: ConfigData) -> Seq<char> {
    match data.timezone {
        Some(tz) => tz@,
        None => "UTC"@,
    }
}

/// Whether pushing outside the timeslots is allowed: not unless set.
pub open spec fn spec_allow_push(data: ConfigData) -> bool {
    match data.allow_push_outside_timeslot {
        Some(b) => b,
        None => false,
    }
}

/// The timeslots that the configured entries give in the zone `tz`, in
/// order, leaving out the entries that are refused.
pub open spec fn spec_timeslots(entries: Seq<TimeslotConfig>, tz: Seq<char>) -> Seq<TimeslotSpec>
    decreases entries.len(),
{
    if entries.len() == 0 {
        Seq::empty()
    } else {
        let e = entries.last();
        let rest = spec_timeslots(entries.drop_last(), tz);
        match spec_timeslot(e.days@, e.start@, e.end@, tz) {
            Ok(t) => rest.push(t),
            Err(_) => rest,
        }
    }
}

/// The timeslots that a configuration gives.
pub open spec fn configured_slots(data: ConfigData) -> Seq<TimeslotSpec> {
    spec_timeslots(data.timeslots@, spec_timezone(data))
}

/// The refusal of the first configured entry that is refused in the zone
/// `tz`, if any.
pub open spec fn first_timeslot_error(entries: Seq<TimeslotConfig>, tz: Seq<char>) -> Option<
    TimeslotError,
>
    decreases entries.len(),
{
    if entries.len() == 0 {
        None
    } else {
        match first_timeslot_error(entries.drop_last(), tz) {
            Some(e) => Some(e),
            None => {
                let e = entries.last();
                match spec_timeslot(e.days@, e.start@, e.end@, tz) {
                    Ok(_) => None,
                    Err(err) => Some(err),
                }
            },
        }
    }
}

/// The configuration is valid: its zone is known and every entry gives a
/// timeslot.
pub open spec fn config_is_valid(data: ConfigData) -> bool {
    known_timezone(spec_timezone(data)) && first_timeslot_error(
        data.timeslots@,
        spec_timezone(data),
    ) is None
}

/// Every timeslot `spec_timeslot` gives is well formed.
pub proof fn lemma_spec_timeslot_wf(days: Seq<char>, start: Seq<char>, end: Seq<char>, tz: Seq<
    char,
>)
    ensures
        spec_timeslot(days, start, end, tz) matches Ok(t) ==> t.wf(),
{
}

impl Config {
    /// A configuration with the given content, stored under `config_name`.
    pub fn new(data: ConfigData, config_name: String) -> (r: Config)
        ensures
            r.data == data,
            r.config_name == config_name,
    {
        Config { data, config_name }
    }

    /// A configuration with the given content, stored under a name of its
    /// own: `test_config_` and ten random letters and digits.
    pub fn create_test_config(data: ConfigData) -> (r: Config)
        ensures
            r.data == data,
            r.config_name@.len() == 22,
            r.config_name@.subrange(0, 12) == "test_config_"@,
    {
        let suffix = random_alphanumeric(10);
        let mut config_name = String::from_str("test_config_");
        proof {
            reveal_strlit("test_config_");
        }
        config_name.append(suffix.as_str());
        assert(config_name@.subrange(0, 12) =~= "test_config_"@);
        Config { data, config_name }
    }

    /// The name under which the configuration is stored.
    pub fn config_name(&self) -> (r: &str)
        ensures
            r@ == self.config_name@,
    {
        self.config_name.as_str()
    }

    /// The time zone in force: the configured one, else `UTC`.
    pub fn get_timezone(&self) -> (r: String)
        ensures
            r@ == spec_timezone(self.data),
    {
        match &self.data.timezone {
            Some(tz) => tz.clone(),
            None => String::from_str("UTC"),
        }
    }

    /// Whether pushing outside the timeslots is allowed (not unless set).
    pub fn get_allow_push_outside_timeslot(&self) -> (r: bool)
        ensures
            r == spec_allow_push(self.data),
    {
        match self.data.allow_push_outside_timeslot {
            Some(b) => b,
            None => false,
        }
    }

    /// Allows or forbids pushing outside the timeslots.
    pub fn set_allow_push_outside_timeslot(&mut self, value: bool)
        ensures
            final(self).data.allow_push_outside_timeslot == Some(value),
            final(self).data.timeslots == old(self).data.timeslots,
            final(self).data.timezone == old(self).data.timezone,
            final(self).config_name == old(self).config_name,
    {
        self.data.allow_push_outside_timeslot = Some(value);
    }

    /// The configured timeslots that are valid in the zone in force, in
    /// order.
    pub fn get_timeslots(&self) -> (r: Vec<Timeslot>)
        ensures
            r@.len() == spec_timeslots(self.data.timeslots@, spec_timezone(self.data)).len(),
            forall|i: int|
                0 <= i < r@.len() ==> #[trigger] r@[i]@ == spec_timeslots(
                    self.data.timeslots@,
                    spec_timezone(self.data),
                )[i] && r@[i]@.wf(),
    {
        let timezone = self.get_timezone();
        let ghost tz = timezone@;
        let mut r: Vec<Timeslot> = Vec::new();
        let n = self.data.timeslots.len();
        for i in 0..n
            invariant
                n == self.data.timeslots@.len(),
                tz == spec_timezone(self.data),
                timezone@ == tz,
                r@.len() == spec_timeslots(self.data.timeslots@.take(i as int), tz).len(),
                forall|j: int|
                    0 <= j < r@.len() ==> #[trigger] r@[j]@ == spec_timeslots(
                        self.data.timeslots@.take(i as int),
                        tz,
                    )[j] && r@[j]@.wf(),
        {
            let t = &self.data.timeslots[i];
            proof {
                assert(self.data.timeslots@.take(i + 1).drop_last() == self.data.timeslots@.take(
                    i as int,
                ));
                lemma_spec_timeslot_wf(t.days@, t.start@, t.end@, tz);
            }
            match Timeslot::new(t.days.as_str(), t.start.as_str(), t.end.as_str(), timezone.as_str()) {
                Ok(slot) => {
                    r.push(slot);
                },
                Err(_) => {},
            }
        }
        assert(self.data.timeslots@.take(n as int) == self.data.timeslots@);
        r
    }

    /// Refuses a time zone that `chrono-tz` does not know.
    fn validate_timezone(&self, value: &String) -> (r: Result<(), ConfigError>)
        ensures
            r is Ok <==> known_timezone(value@),
            r matches Err(ConfigError::InvalidTimezone(v)) ==> v@ == value@,
            r matches Err(e) ==> e is InvalidTimezone,
    {
        if is_known_timezone(value.as_str()) {
            Ok(())
        } else {
            Err(ConfigError::InvalidTimezone(value.clone()))
        }
    }

    /// Sets the time zone, unless it is unknown.
    pub fn set_timezone(&mut self, value: String) -> (r: Result<(), ConfigError>)
        ensures
            r is Ok <==> known_timezone(value@),
            r is Ok ==> final(self).data.timezone == Some(value),
            r is Err ==> final(self).data.timezone == old(self).data.timezone,
            r matches Err(e) ==> (e matches ConfigError::InvalidTimezone(v) && v@ == value@),
            final(self).data.timeslots == old(self).data.timeslots,
            final(self).data.allow_push_outside_timeslot == old(
                self,
            ).data.allow_push_outside_timeslot,
            final(self).config_name == old(self).config_name,
    {
        self.validate_timezone(&value)?;
        self.data.timezone = Some(value);
        Ok(())
    }

    /// Adds a timeslot entry, unless it is refused in the zone in force.
    pub fn add_timeslot(&mut self, days: String, start: String, end: String) -> (r: Result<
        (),
        TimeslotError,
    >)
        ensures
            match spec_timeslot(days@, start@, end@, spec_timezone(old(self).data)) {
                Ok(_) => r is Ok && final(self).data.timeslots@ == old(self).data.timeslots@.push(
                    TimeslotConfig { days, start, end },
                ),
                Err(e) => r == Err::<(), TimeslotError>(e) && final(self).data.timeslots
                    == old(self).data.timeslots,
            },
            final(self).data.timezone == old(self).data.timezone,
            final(self).data.allow_push_outside_timeslot == old(
                self,
            ).data.allow_push_outside_timeslot,
            final(self).config_name == old(self).config_name,
    {
        let timezone = self.get_timezone();
        let _timeslot = Timeslot::new(days.as_str(), start.as_str(), end.as_str(), timezone.as_str())?;
        self.data.timeslots.push(TimeslotConfig { days, start, end });
        Ok(())
    }

    /// Checks that the zone in force is known and that every timeslot entry
    /// is valid; otherwise gives the first refusal.
    pub fn check_config(&self) -> (r: Result<(), ConfigError>)
        ensures
            r is Ok <==> config_is_valid(self.data),
            !known_timezone(spec_timezone(self.data)) ==> (r matches Err(
                ConfigError::InvalidTimezone(v),
            ) && v@ == spec_timezone(self.data)),
            known_timezone(spec_timezone(self.data)) ==> match first_timeslot_error(
                self.data.timeslots@,
                spec_timezone(self.data),
            ) {
                Some(e) => (r matches Err(ConfigError::Timeslot(e2)) && e2 == e),
                None => r is Ok,
            },
    {
        let timezone = self.get_timezone();
        self.validate_timezone(&timezone)?;
        let ghost tz = timezone@;
        let n = self.data.timeslots.len();
        for i in 0..n
            invariant
                n == self.data.timeslots@.len(),
                tz == spec_timezone(self.data),
                timezone@ == tz,
                known_timezone(tz),
                first_timeslot_error(self.data.timeslots@.take(i as int), tz) is None,
        {
            let t = &self.data.timeslots[i];
            proof {
                assert(self.data.timeslots@.take(i + 1).drop_last() == self.data.timeslots@.take(
                    i as int,
                ));
            }
            match Timeslot::new(t.days.as_str(), t.start.as_str(), t.end.as_str(), timezone.as_str()) {
                Ok(_) => {},
                Err(e) => {
                    proof {
                        lemma_first_error_persists(self.data.timeslots@, tz, i as int + 1);
                    }
                    return Err(ConfigError::Timeslot(e));
                },
            }
        }
        assert(self.data.timeslots@.take(n as int) == self.data.timeslots@);
        Ok(())
    }
}

/// Timeslots are only ever given in a known time zone.
pub proof fn lemma_slots_need_known_timezone(entries: Seq<TimeslotConfig>, tz: Seq<char>)
    ensures
        spec_timeslots(entries, tz).len() > 0 ==> known_timezone(tz),
    decreases entries.len(),
{
    if entries.len() > 0 {
        lemma_slots_need_known_timezone(entries.drop_last(), tz);
    }
}

/// What a write of the time zone gives back when it is read: the time zone
/// in force is the one written.
pub proof fn law_timezone_read_back(data: ConfigData, value: String)
    ensures
        spec_timezone(
            ConfigData {
                timeslots: data.timeslots,
                allow_push_outside_timeslot: data.allow_push_outside_timeslot,
                timezone: Some(value),
            },
        ) == value@,
{
}

/// What a write of the push policy gives back when it is read.
pub proof fn law_allow_push_read_back(data: ConfigData, value: bool)
    ensures
        spec_allow_push(
            ConfigData {
                timeslots: data.timeslots,
                allow_push_outside_timeslot: Some(value),
                timezone: data.timezone,
            },
        ) == value,
{
}

/// An entry that is accepted and added is listed last among the timeslots.
pub proof fn law_added_timeslot_is_listed_last(entries: Seq<TimeslotConfig>, entry: TimeslotConfig, tz: Seq<char>)
    requires
        spec_timeslot(entry.days@, entry.start@, entry.end@, tz) is Ok,
    ensures
        spec_timeslots(entries.push(entry), tz) == spec_timeslots(entries, tz).push(
            spec_timeslot(entry.days@, entry.start@, entry.end@, tz)->Ok_0,
        ),
{
    assert(entries.push(entry).drop_last() == entries);
}

/// In a valid configuration every entry gives a timeslot.
pub proof fn law_valid_config_lists_every_entry(entries: Seq<TimeslotConfig>, tz: Seq<char>)
    requires
        first_timeslot_error(entries, tz) is None,
    ensures
        spec_timeslots(entries, tz).len() == entries.len(),
    decreases entries.len(),
{
    if entries.len() > 0 {
        law_valid_config_lists_every_entry(entries.drop_last(), tz);
    }
}

/// Once a prefix of the entries holds a refused entry, the whole list
/// reports the first such refusal.
pub proof fn lemma_first_error_persists(entries: Seq<TimeslotConfig>, tz: Seq<char>, k: int)
    requires
        0 <= k <= entries.len(),
        first_timeslot_error(entries.take(k), tz) is Some,
    ensures
        first_timeslot_error(entries, tz) == first_timeslot_error(entries.take(k), tz),
    decreases entries.len() - k,
{
    if k < entries.len() {
        assert(entries.take(k + 1).drop_last() == entries.take(k));
        lemma_first_error_persists(entries, tz, k + 1);
    } else {
        assert(entries.take(k) == entries);
    }
}

} // verus!
