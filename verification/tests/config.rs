use gitclock::commands::config::{run_config_command, ConfigCommandOutcome, ConfigOptions};
use gitclock::commands::timeslot::{run_timeslot_command, TimeslotCommandOutcome, TimeslotOptions};
use gitclock::config::{Config, ConfigData, ConfigError, TimeslotConfig};
use gitclock::timeslot::TimeslotError;

fn slot(days: &str, start: &str, end: &str) -> TimeslotConfig {
    TimeslotConfig { days: days.to_string(), start: start.to_string(), end: end.to_string() }
}

#[test]
fn get_timeslots_converts_to_timeslot_instances() {
    let config = Config::create_test_config(ConfigData {
        timeslots: vec![slot("1-5", "0900", "1700"), slot("6-6", "0900", "1200")],
        allow_push_outside_timeslot: None,
        timezone: Some("UTC".to_string()),
    });

    let timeslots = config.get_timeslots();
    assert_eq!(timeslots.len(), 2);
}

#[test]
fn get_allow_push_outside_timeslot_returns_boolean() {
    let mut config = Config::create_test_config(ConfigData::default());
    assert_eq!(config.get_allow_push_outside_timeslot(), false);
    config.data.allow_push_outside_timeslot = Some(true);
    assert_eq!(config.get_allow_push_outside_timeslot(), true);
}

#[test]
fn get_timezone_returns_default_or_set_value() {
    let mut config = Config::create_test_config(ConfigData::default());
    assert_eq!(config.get_timezone(), "UTC");
    config.data.timezone = Some("Europe/Paris".to_string());
    assert_eq!(config.get_timezone(), "Europe/Paris");
}

#[test]
fn set_timezone_throws_on_invalid_timezone() {
    let mut config = Config::create_test_config(ConfigData::default());
    assert!(config.set_timezone("invalid".to_string()).is_err());
}

#[test]
fn check_config_is_noop_when_valid() {
    let config = Config::create_test_config(ConfigData {
        timeslots: vec![slot("1-5", "0900", "1700")],
        allow_push_outside_timeslot: Some(true),
        timezone: Some("Europe/Paris".to_string()),
    });
    assert!(config.check_config().is_ok());
}

#[test]
fn set_allow_push_outside_timeslot_sets_value() {
    let mut config = Config::create_test_config(ConfigData::default());
    config.set_allow_push_outside_timeslot(true);
    assert_eq!(config.get_allow_push_outside_timeslot(), true);
}

#[test]
fn add_timeslot_adds_and_validates() {
    let mut config = Config::create_test_config(ConfigData::default());
    let _ = config.add_timeslot("1-5".to_string(), "0900".to_string(), "1700".to_string());
    assert_eq!(config.data.timeslots.len(), 1);
    assert_eq!(config.data.timeslots[0].days, "1-5");

    assert!(config
        .add_timeslot("invalid".to_string(), "0900".to_string(), "1700".to_string())
        .is_err());
    assert_eq!(config.data.timeslots.len(), 1);
}

#[test]
fn test_configs_get_unique_names() {
    let config1 = Config::create_test_config(ConfigData::default());
    let config2 = Config::create_test_config(ConfigData::default());
    assert_ne!(config1.config_name(), config2.config_name());
    assert!(config1.config_name().starts_with("test_config_"));
    assert_eq!(config1.config_name().len(), 22);
}

#[test]
fn get_timeslots_skips_invalid_entries_in_order() {
    let config = Config::create_test_config(ConfigData {
        timeslots: vec![slot("1-5", "0900", "1700"), slot("5-1", "0900", "1200"), slot("6-7", "1000", "1100")],
        allow_push_outside_timeslot: None,
        timezone: None,
    });
    let timeslots = config.get_timeslots();
    assert_eq!(timeslots.len(), 2);
    assert_eq!(timeslots[0].day_range, (1, 5));
    assert_eq!(timeslots[1].day_range, (6, 7));
    assert_eq!(timeslots[1].timezone, "UTC");
}

#[test]
fn check_config_reports_first_refusal() {
    let bad_zone = Config::create_test_config(ConfigData {
        timeslots: vec![slot("9-9", "0900", "1700")],
        allow_push_outside_timeslot: None,
        timezone: Some("Nowhere/Land".to_string()),
    });
    match bad_zone.check_config() {
        Err(ConfigError::InvalidTimezone(v)) => assert_eq!(v, "Nowhere/Land"),
        other => panic!("unexpected {:?}", other),
    }
    let bad_zone_error = bad_zone.check_config().unwrap_err();
    assert_eq!(
        bad_zone_error.message(),
        "Timezone is invalid, expected something like Europe/Paris, but got Nowhere/Land."
    );

    let bad_slots = Config::create_test_config(ConfigData {
        timeslots: vec![slot("1-5", "0900", "1700"), slot("1-5", "0961", "1700"), slot("9-9", "0900", "1700")],
        allow_push_outside_timeslot: None,
        timezone: Some("Europe/Paris".to_string()),
    });
    match bad_slots.check_config() {
        Err(ConfigError::Timeslot(e)) => assert_eq!(e, TimeslotError::TimeFormat),
        other => panic!("unexpected {:?}", other),
    }
}

#[test]
fn set_timezone_then_get_timezone_gives_it_back() {
    let mut config = Config::create_test_config(ConfigData::default());
    assert!(config.set_timezone("Asia/Kolkata".to_string()).is_ok());
    assert_eq!(config.get_timezone(), "Asia/Kolkata");
    assert!(config.set_timezone("Asia/Nowhere".to_string()).is_err());
    assert_eq!(config.get_timezone(), "Asia/Kolkata");
}

#[test]
fn sets_timezone_when_it_is_in_options() {
    let mut config = Config::create_test_config(ConfigData::default());
    assert_eq!(config.get_timezone(), "UTC");

    let options = ConfigOptions {
        edit: false,
        allow_push_outside_timeslot: None,
        timezone: Some("Europe/Paris".to_string()),
    };
    run_config_command(&mut config, options);
    assert_eq!(config.get_timezone(), "Europe/Paris");
}

#[test]
fn sets_allow_push_outside_timeslot_when_it_is_in_options() {
    let mut config = Config::create_test_config(ConfigData::default());
    assert_eq!(config.get_allow_push_outside_timeslot(), false);

    let options = ConfigOptions { edit: false, allow_push_outside_timeslot: Some(true), timezone: None };
    run_config_command(&mut config, options);
    assert_eq!(config.get_allow_push_outside_timeslot(), true);

    let options2 = ConfigOptions { edit: false, allow_push_outside_timeslot: Some(false), timezone: None };
    run_config_command(&mut config, options2);
    assert_eq!(config.get_allow_push_outside_timeslot(), false);
}

#[test]
fn does_not_set_anything_when_options_are_empty() {
    let mut config = Config::create_test_config(ConfigData::default());
    let options = ConfigOptions { edit: false, allow_push_outside_timeslot: None, timezone: None };
    run_config_command(&mut config, options);
    assert_eq!(config.get_timezone(), "UTC");
    assert_eq!(config.get_allow_push_outside_timeslot(), false);
}

#[test]
fn config_command_sets_push_policy_before_refusing_timezone() {
    let mut config = Config::create_test_config(ConfigData::default());
    let options = ConfigOptions {
        edit: false,
        allow_push_outside_timeslot: Some(true),
        timezone: Some("Bad/Zone".to_string()),
    };
    let outcome = run_config_command(&mut config, options);
    assert_eq!(outcome.exit_code(), 1);
    assert!(matches!(outcome, ConfigCommandOutcome::InvalidTimezone { allow_push_set: Some(true), .. }));
    assert_eq!(config.get_allow_push_outside_timeslot(), true);
    assert_eq!(config.get_timezone(), "UTC");

    let edit = ConfigOptions { edit: true, allow_push_outside_timeslot: Some(false), timezone: None };
    assert!(matches!(run_config_command(&mut config, edit), ConfigCommandOutcome::EditRequested));
    assert_eq!(config.get_allow_push_outside_timeslot(), true);
}

fn no_options() -> TimeslotOptions {
    TimeslotOptions { add: false, list: false, days: None, start: None, end: None }
}

#[test]
fn timeslot_add_list_incompatible() {
    let mut config = Config::create_test_config(ConfigData::default());
    let options = TimeslotOptions { add: true, list: true, ..no_options() };
    assert_eq!(run_timeslot_command(options, &mut config).exit_code(), 1);
}

#[test]
fn timeslot_add_missing_args() {
    let mut config = Config::create_test_config(ConfigData::default());
    let options = TimeslotOptions { add: true, days: Some("1-5".to_string()), ..no_options() };
    assert_eq!(run_timeslot_command(options, &mut config).exit_code(), 1);
}

#[test]
fn timeslot_add_success() {
    let mut config = Config::create_test_config(ConfigData::default());
    let options = TimeslotOptions {
        add: true,
        days: Some("1-5".to_string()),
        start: Some("0900".to_string()),
        end: Some("1700".to_string()),
        ..no_options()
    };
    let _ = run_timeslot_command(options, &mut config);
    assert_eq!(config.data.timeslots.len(), 1);
}

#[test]
fn timeslot_list_works() {
    let mut config = Config::create_test_config(ConfigData {
        timeslots: vec![slot("1-5", "0900", "1700")],
        ..ConfigData::default()
    });
    let options = TimeslotOptions { list: true, ..no_options() };
    assert_eq!(run_timeslot_command(options, &mut config).exit_code(), 0);
}

#[test]
fn timeslot_list_no_timeslots() {
    let mut config = Config::create_test_config(ConfigData::default());
    let options = TimeslotOptions { list: true, ..no_options() };
    assert_eq!(run_timeslot_command(options, &mut config).exit_code(), 0);
}

#[test]
fn timeslot_need_one_of_add_or_list() {
    let mut config = Config::create_test_config(ConfigData::default());
    assert_eq!(run_timeslot_command(no_options(), &mut config).exit_code(), 1);
}

#[test]
fn timeslot_list_describes_each_timeslot() {
    let mut config = Config::create_test_config(ConfigData {
        timeslots: vec![slot("1-5", "0900", "1700"), slot("6-6", "1000", "1400")],
        timezone: Some("Africa/Nairobi".to_string()),
        ..ConfigData::default()
    });
    match run_timeslot_command(TimeslotOptions { list: true, ..no_options() }, &mut config) {
        TimeslotCommandOutcome::Listed(lines) => assert_eq!(
            lines,
            vec![
                "Monday to Friday, between 09:00 and 17:00 in timezone Africa/Nairobi".to_string(),
                "Saturday, between 10:00 and 14:00 in timezone Africa/Nairobi".to_string(),
            ]
        ),
        other => panic!("unexpected {:?}", other),
    }
    let refused = TimeslotOptions {
        add: true,
        days: Some("1-5".to_string()),
        start: Some("0900".to_string()),
        end: Some("2500".to_string()),
        ..no_options()
    };
    assert!(matches!(
        run_timeslot_command(refused, &mut config),
        TimeslotCommandOutcome::AddFailed(TimeslotError::TimeFormat)
    ));
    assert_eq!(config.data.timeslots.len(), 2);
}

#[test]
fn added_timeslot_is_listed_last() {
    let mut config = Config::create_test_config(ConfigData {
        timeslots: vec![slot("1-5", "0900", "1700")],
        allow_push_outside_timeslot: None,
        timezone: Some("Europe/Paris".to_string()),
    });
    assert!(config.add_timeslot("6-7".to_string(), "1000".to_string(), "1200".to_string()).is_ok());
    let timeslots = config.get_timeslots();
    assert_eq!(timeslots.len(), 2);
    let last = &timeslots[1];
    assert_eq!(last.day_range, (6, 7));
    assert_eq!(last.start_time, (10, 0));
    assert_eq!(last.end_time, (12, 0));
    assert_eq!(last.timezone, "Europe/Paris");
}
