use chrono::{DateTime, Datelike, TimeZone, Utc};
use gitclock::commands::commit::{commit_with_shell, get_next_commit_date, CommitOutcome};
use gitclock::commands::pre_commit_hook::{pre_commit_decision, pre_commit_hook_with_shell, HookEnv, PreCommitOutcome};
use gitclock::commands::pre_push_hook::{pre_push_decision, pre_push_hook_with_shell, PrePushOutcome};
use gitclock::commands::pre_rebase_hook::run_pre_rebase_hook_command;
use gitclock::commands::push::push_with_shell;
use gitclock::commands::rebase::rebase_with_shell;
use gitclock::commands::rewrite_history::{
    choose_min_date_for_new_commit, rewrite_history_with_shell, RewriteOutcome,
};
use gitclock::config::{Config, ConfigData, TimeslotConfig};
use gitclock::git::{GitError, GitSession, GitShell};
use gitclock::instant::Instant;
use gitclock::spawn::{SpawnError, SpawnResult};
use gitclock::timeslot::Timeslot;
use std::cell::RefCell;
use std::collections::HashMap;

type Reply = Result<SpawnResult, SpawnError>;
type ArgsCheck = Box<dyn Fn(&[String]) -> bool>;
type Responder = Box<dyn Fn(&str, &[String]) -> Reply>;

struct Expectation {
    binary: Option<String>,
    args: Option<ArgsCheck>,
    inherit_stdio: Option<bool>,
    env: Option<HashMap<String, String>>,
    respond: Responder,
}

/// A shell that answers from a list of expectations; the first one that
/// matches a call answers it, and a call that matches none fails the test.
struct MockGitShell {
    expectations: Vec<Expectation>,
    calls: RefCell<Vec<(String, Vec<String>, bool, HashMap<String, String>)>>,
}

impl MockGitShell {
    fn new() -> Self {
        MockGitShell { expectations: Vec::new(), calls: RefCell::new(Vec::new()) }
    }

    fn expect(
        &mut self,
        binary: Option<&str>,
        args: Option<ArgsCheck>,
        inherit_stdio: Option<bool>,
        env: Option<HashMap<String, String>>,
        respond: impl Fn(&str, &[String]) -> Reply + 'static,
    ) {
        self.expectations.push(Expectation {
            binary: binary.map(|b| b.to_string()),
            args,
            inherit_stdio,
            env,
            respond: Box::new(respond),
        });
    }

    fn returning(&mut self, respond: impl Fn(&str, &[String]) -> Reply + 'static) {
        self.expect(None, None, None, None, respond);
    }
}

fn args_eq(expected: Vec<String>) -> Option<ArgsCheck> {
    Some(Box::new(move |args: &[String]| args == expected.as_slice()))
}

fn strings(items: &[&str]) -> Vec<String> {
    items.iter().map(|s| s.to_string()).collect()
}

impl GitShell for MockGitShell {
    fn spawn_async(
        &self,
        binary: &str,
        args: &[String],
        inherit_stdio: bool,
        env: HashMap<String, String>,
    ) -> Result<SpawnResult, SpawnError> {
        self.calls.borrow_mut().push((binary.to_string(), args.to_vec(), inherit_stdio, env.clone()));
        for e in &self.expectations {
            let binary_ok = e.binary.as_deref().map_or(true, |b| b == binary);
            let args_ok = e.args.as_ref().map_or(true, |check| check(args));
            let inherit_ok = e.inherit_stdio.map_or(true, |i| i == inherit_stdio);
            let env_ok = e.env.as_ref().map_or(true, |m| *m == env);
            if binary_ok && args_ok && inherit_ok && env_ok {
                return (e.respond)(binary, args);
            }
        }
        panic!("no matching expectation for {} {:?} (inherit_stdio={})", binary, args, inherit_stdio);
    }
}

impl GitShell for &MockGitShell {
    fn spawn_async(
        &self,
        binary: &str,
        args: &[String],
        inherit_stdio: bool,
        env: HashMap<String, String>,
    ) -> Result<SpawnResult, SpawnError> {
        (**self).spawn_async(binary, args, inherit_stdio, env)
    }
}

fn ok_output(code: i32, stdout: &str) -> Reply {
    Ok(SpawnResult { code, stdout: stdout.to_string(), stderr: "".to_string() })
}

fn failure(code: Option<i32>, stderr: &str) -> Reply {
    Err(SpawnError { code, stdout: "".to_string(), stderr: stderr.to_string(), message: "error".to_string() })
}

fn instant(date: DateTime<Utc>) -> Instant {
    Instant::new(date.timestamp(), date.timestamp_subsec_nanos()).unwrap()
}

fn datetime(at: Instant) -> DateTime<Utc> {
    DateTime::from_timestamp(at.secs, at.nanos).unwrap()
}

fn slot(days: &str, start: &str, end: &str) -> TimeslotConfig {
    TimeslotConfig { days: days.to_string(), start: start.to_string(), end: end.to_string() }
}

fn all_day_config(timezone: &str, allow_push: Option<bool>) -> Config {
    Config::create_test_config(ConfigData {
        timeslots: vec![slot("1-7", "0000", "2359")],
        timezone: Some(timezone.to_string()),
        allow_push_outside_timeslot: allow_push,
    })
}

fn other_weekday_config(start: &str, end: &str, timezone: &str, allow_push: Option<bool>) -> Config {
    let weekday = Utc::now().weekday().number_from_monday();
    let other_weekday = if weekday == 7 { 1 } else { weekday + 1 };
    Config::create_test_config(ConfigData {
        timeslots: vec![slot(&format!("{}-{}", other_weekday, other_weekday), start, end)],
        timezone: Some(timezone.to_string()),
        allow_push_outside_timeslot: allow_push,
    })
}

fn env(gitclock: bool) -> HookEnv {
    HookEnv { gitclock, committer_date_set: false }
}

// gitclock commit

#[test]
fn get_next_commit_date_returns_time_within_timeslots() {
    let min_date = Utc.with_ymd_and_hms(2023, 7, 4, 9, 0, 0).unwrap();
    let timeslots = vec![Timeslot::new("1-7", "0000", "2359", "UTC").unwrap()];
    let result = datetime(get_next_commit_date(instant(min_date), instant(min_date), &timeslots));

    assert!(result >= min_date);
    assert!(result <= min_date + chrono::Duration::minutes(15 + 1));
}

#[test]
fn get_next_commit_date_respects_timeslot_start() {
    let min_date = Utc.with_ymd_and_hms(2023, 7, 4, 9, 0, 0).unwrap();
    let timeslots = vec![Timeslot::new("1-7", "1000", "1600", "UTC").unwrap()];
    let result = datetime(get_next_commit_date(instant(min_date), instant(min_date), &timeslots));

    let min_expected = Utc.with_ymd_and_hms(2023, 7, 4, 10, 0, 0).unwrap();
    let max_expected = min_expected + chrono::Duration::minutes(15 + 1);

    assert!(result >= min_expected);
    assert!(result <= max_expected);
}

#[test]
fn get_next_commit_date_is_now_when_now_is_the_earliest_date() {
    let now = Utc.with_ymd_and_hms(2023, 7, 4, 12, 0, 30).unwrap();
    let timeslots = vec![Timeslot::new("1-7", "0900", "1700", "UTC").unwrap()];
    assert_eq!(datetime(get_next_commit_date(instant(now), instant(now), &timeslots)), now);
}

#[test]
fn get_next_commit_date_picks_the_earliest_timeslot() {
    let min_date = Utc.with_ymd_and_hms(2023, 7, 4, 9, 0, 0).unwrap();
    let timeslots = vec![
        Timeslot::new("1-7", "1400", "1600", "UTC").unwrap(),
        Timeslot::new("1-7", "1100", "1200", "UTC").unwrap(),
    ];
    let result = datetime(get_next_commit_date(instant(min_date), instant(min_date), &timeslots));
    let earliest = Utc.with_ymd_and_hms(2023, 7, 4, 11, 0, 0).unwrap();
    assert!(result >= earliest + chrono::Duration::minutes(1));
    assert!(result < earliest + chrono::Duration::minutes(16));
}

#[test]
fn commit_returns_0_when_everything_is_valid() {
    let mut shell = MockGitShell::new();
    let last_commit_date = "2023-07-04T10:00:00Z";
    let now = instant(Utc::now());
    shell.expect(
        Some("git"),
        args_eq(strings(&["log", "-1", "--format=%cI"])),
        Some(false),
        None,
        move |_, _| ok_output(0, last_commit_date),
    );
    shell.expect(Some("git"), None, Some(true), None, |_, _| ok_output(0, ""));

    let config = all_day_config("UTC", None);
    let result = commit_with_shell(now, &mut GitSession::new(&shell), &["-m".to_string(), "message".to_string()], &config);
    assert_eq!(result.exit_code(), 0);
}

#[test]
fn commit_returns_1_when_no_timeslots() {
    let shell = MockGitShell::new();
    let config = Config::create_test_config(ConfigData::default());
    let now = instant(Utc::now());
    let result = commit_with_shell(now, &mut GitSession::new(&shell), &[], &config);
    assert_eq!(result.exit_code(), 1);
}

#[test]
fn commit_returns_1_when_git_commit_fails() {
    let mut shell = MockGitShell::new();
    let now = instant(Utc::now());
    shell.expect(
        Some("git"),
        args_eq(strings(&["log", "-1", "--format=%cI"])),
        Some(false),
        None,
        |_, _| ok_output(0, "2023-07-04T10:00:00Z"),
    );
    shell.expect(Some("git"), None, Some(true), None, |_, _| ok_output(1, ""));

    let config = all_day_config("UTC", None);
    let result = commit_with_shell(now, &mut GitSession::new(&shell), &[], &config);
    assert_eq!(result.exit_code(), 1);
}

#[test]
fn commit_waits_for_a_last_commit_dated_in_the_future() {
    let mut shell = MockGitShell::new();
    let now = Utc.with_ymd_and_hms(2023, 7, 4, 10, 0, 0).unwrap();
    shell.expect(Some("git"), args_eq(strings(&["log", "-1", "--format=%cI"])), Some(false), None, |_, _| {
        ok_output(0, "2023-07-04T12:00:00Z\n")
    });
    shell.expect(Some("git"), None, Some(true), None, |_, _| ok_output(0, ""));
    let config = all_day_config("UTC", None);
    match commit_with_shell(instant(now), &mut GitSession::new(&shell), &["-m".to_string(), "x".to_string()], &config) {
        CommitOutcome::Committed { last_commit_date, date, code } => {
            assert_eq!(code, 0);
            assert_eq!(datetime(last_commit_date), Utc.with_ymd_and_hms(2023, 7, 4, 12, 0, 0).unwrap());
            let date = datetime(date);
            assert!(date >= Utc.with_ymd_and_hms(2023, 7, 4, 12, 1, 0).unwrap());
            assert!(date < Utc.with_ymd_and_hms(2023, 7, 4, 12, 16, 0).unwrap());
            let calls = shell.calls.borrow();
            assert_eq!(calls[1].1[0], "commit");
            assert_eq!(calls[1].1[2], format!("{} +0000", date.timestamp()));
            assert_eq!(&calls[1].1[3..], &strings(&["-m", "x"])[..]);
        }
        other => panic!("unexpected {:?}", other),
    }
}

#[test]
fn commit_reports_an_unreadable_last_commit_date() {
    let mut shell = MockGitShell::new();
    shell.returning(|_, _| failure(Some(1), "boom"));
    let config = all_day_config("UTC", None);
    match commit_with_shell(instant(Utc::now()), &mut GitSession::new(&shell), &[], &config) {
        CommitOutcome::LastCommitDateFailed(e) => assert_eq!(e.message(), "Git error: boom"),
        other => panic!("unexpected {:?}", other),
    }
}

#[test]
fn commit_refuses_when_a_timeslot_never_comes() {
    let mut shell = MockGitShell::new();
    shell.expect(Some("git"), None, Some(false), None, |_, _| ok_output(0, ""));
    let config = Config::create_test_config(ConfigData {
        timeslots: vec![slot("1-7", "1700", "0900")],
        timezone: Some("UTC".to_string()),
        allow_push_outside_timeslot: None,
    });
    let outcome = commit_with_shell(instant(Utc::now()), &mut GitSession::new(&shell), &[], &config);
    assert!(matches!(outcome, CommitOutcome::NoSuitableDate { .. }));
    assert_eq!(outcome.exit_code(), 1);
    assert_eq!(shell.calls.borrow().len(), 1);
}

// gitclock pre-commit-hook

#[test]
fn pre_commit_hook_fails_when_outside_timeslot_and_no_gitclock_env() {
    let now = Utc::now();
    let config = other_weekday_config("0900", "1200", "UTC", None);
    let mut shell = MockGitShell::new();
    shell.returning(|_, _| ok_output(0, &Utc::now().to_rfc3339()));
    assert_eq!(pre_commit_hook_with_shell(instant(now), &mut GitSession::new(&shell), &config, env(false)).exit_code(), 1);
}

#[test]
fn fails_when_last_commit_is_in_future_and_no_gitclock_env() {
    let now = Utc::now();
    let config = all_day_config("UTC", None);
    let mut shell = MockGitShell::new();
    let future_date = (now + chrono::Duration::days(1)).to_rfc3339();
    shell.returning(move |_, _| ok_output(0, &future_date));
    assert_eq!(pre_commit_hook_with_shell(instant(now), &mut GitSession::new(&shell), &config, env(false)).exit_code(), 1);
}

#[test]
fn pre_commit_hook_succeeds_when_within_timeslot_and_no_gitclock_env() {
    let now = Utc::now();
    let config = all_day_config("UTC", None);
    let mut shell = MockGitShell::new();
    shell.returning(move |_, _| ok_output(0, &(now - chrono::Duration::days(1)).to_rfc3339()));
    assert_eq!(pre_commit_hook_with_shell(instant(now), &mut GitSession::new(&shell), &config, env(false)).exit_code(), 0);
}

#[test]
fn pre_commit_hook_fails_when_no_timeslots_even_with_gitclock_env() {
    let now = Utc::now();
    let config = Config::create_test_config(ConfigData::default());
    let mut shell = MockGitShell::new();
    shell.returning(move |_, _| ok_output(0, &now.to_rfc3339()));
    assert_eq!(pre_commit_hook_with_shell(instant(now), &mut GitSession::new(&shell), &config, env(true)).exit_code(), 1);
}

#[test]
fn succeeds_with_gitclock_env_even_if_outside_timeslot_or_future_commit() {
    let now = Utc::now();
    let config = other_weekday_config("0900", "1200", "UTC", None);
    let mut shell = MockGitShell::new();
    shell.returning(move |_, _| ok_output(0, &now.to_rfc3339()));
    assert_eq!(pre_commit_hook_with_shell(instant(now), &mut GitSession::new(&shell), &config, env(true)).exit_code(), 0);
}

#[test]
fn pre_commit_hook_accepts_future_last_commit_when_committer_date_is_set() {
    let now = Utc::now();
    let config = all_day_config("UTC", None);
    let mut shell = MockGitShell::new();
    let future_date = (now + chrono::Duration::days(1)).to_rfc3339();
    shell.returning(move |_, _| ok_output(0, &future_date));
    let hook_env = HookEnv { gitclock: false, committer_date_set: true };
    assert!(matches!(
        pre_commit_hook_with_shell(instant(now), &mut GitSession::new(&shell), &config, hook_env),
        PreCommitOutcome::Passed { .. }
    ));
}

// gitclock pre-push-hook

fn push_stdin() -> String {
    format!("{} {} refs/heads/master {}", "0".repeat(40), "1".repeat(40), "2".repeat(40))
}

#[test]
fn fails_when_no_timeslots_at_all() {
    let config = Config::create_test_config(ConfigData::default());
    let shell = MockGitShell::new();
    let now = instant(Utc::now());
    assert_eq!(pre_push_hook_with_shell(now, &mut GitSession::new(&shell), &config, "", false).exit_code(), 1);
}

#[test]
fn fails_when_no_timeslots_match_now() {
    let now = instant(Utc::now());
    let config = other_weekday_config("0900", "1700", "Africa/Nairobi", Some(false));
    let shell = MockGitShell::new();
    assert_eq!(pre_push_hook_with_shell(now, &mut GitSession::new(&shell), &config, "", false).exit_code(), 1);
}

#[test]
fn succeeds_when_no_timeslots_match_but_allowed_to_push_outside() {
    let now = Utc::now();
    let config = Config::create_test_config(ConfigData {
        timeslots: vec![slot("6-7", "0900", "1700")],
        timezone: Some("Europe/Paris".to_string()),
        allow_push_outside_timeslot: Some(true),
    });
    let mut shell = MockGitShell::new();
    let commit_date = now.to_rfc3339();
    shell.returning(move |_, _| ok_output(0, &commit_date));
    assert_eq!(pre_push_hook_with_shell(instant(now), &mut GitSession::new(&shell), &config, &push_stdin(), false).exit_code(), 0);
}

#[test]
fn succeeds_when_no_commits_to_push() {
    let now = instant(Utc::now());
    let config = all_day_config("Europe/Paris", Some(true));
    let shell = MockGitShell::new();
    assert_eq!(pre_push_hook_with_shell(now, &mut GitSession::new(&shell), &config, "", false).exit_code(), 0);
}

#[test]
fn succeeds_when_commit_date_is_past() {
    let now = Utc::now();
    let config = all_day_config("Africa/Nairobi", Some(false));
    let mut shell = MockGitShell::new();
    let past_date = (now - chrono::Duration::hours(1)).to_rfc3339();
    shell.returning(move |_, _| ok_output(0, &past_date));
    assert_eq!(pre_push_hook_with_shell(instant(now), &mut GitSession::new(&shell), &config, &push_stdin(), false).exit_code(), 0);
}

#[test]
fn fails_when_commit_date_is_future() {
    let now = Utc::now();
    let config = all_day_config("Africa/Nairobi", Some(false));
    let mut shell = MockGitShell::new();
    let future_date = (now + chrono::Duration::hours(1)).to_rfc3339();
    shell.returning(move |_, _| ok_output(0, &future_date));
    assert_eq!(pre_push_hook_with_shell(instant(now), &mut GitSession::new(&shell), &config, &push_stdin(), false).exit_code(), 1);
}

#[test]
fn fails_when_git_show_fails() {
    let now = instant(Utc::now());
    let config = all_day_config("Africa/Nairobi", Some(false));
    let mut shell = MockGitShell::new();
    shell.returning(|_, _| failure(Some(128), "fatal: ambiguous argument"));
    assert_eq!(pre_push_hook_with_shell(now, &mut GitSession::new(&shell), &config, &push_stdin(), false).exit_code(), 1);
}

#[test]
fn pre_push_hook_asks_for_the_date_of_the_local_object() {
    let now = Utc::now();
    let config = all_day_config("UTC", None);
    let mut shell = MockGitShell::new();
    let past_date = (now - chrono::Duration::hours(1)).to_rfc3339();
    shell.returning(move |_, _| ok_output(0, &past_date));
    let stdin = format!("refs/heads/main {} refs/heads/main {}\n", "1".repeat(40), "2".repeat(40));
    assert!(matches!(
        pre_push_hook_with_shell(instant(now), &mut GitSession::new(&shell), &config, &stdin, false),
        PrePushOutcome::Passed { .. }
    ));
    assert_eq!(shell.calls.borrow()[0].1, strings(&["show", "-s", "--format=%cI", &"1".repeat(40)]));
    let short = pre_push_hook_with_shell(instant(now), &mut GitSession::new(&shell), &config, "a b c", false);
    assert!(matches!(short, PrePushOutcome::NothingToPush));
    assert_eq!(short.exit_code(), 0);
}

// gitclock pre-rebase-hook

#[test]
fn pre_rebase_hook_fails_when_outside_timeslot_and_no_gitclock_env() {
    let now = instant(Utc::now());
    let config = other_weekday_config("0900", "1200", "UTC", None);
    assert_eq!(run_pre_rebase_hook_command(now, &config, false).exit_code(), 1);
}

#[test]
fn pre_rebase_hook_succeeds_when_within_timeslot_and_no_gitclock_env() {
    let now = instant(Utc::now());
    let config = all_day_config("UTC", None);
    assert_eq!(run_pre_rebase_hook_command(now, &config, false).exit_code(), 0);
}

#[test]
fn pre_rebase_hook_fails_when_no_timeslots_even_with_gitclock_env() {
    let now = instant(Utc::now());
    let config = Config::create_test_config(ConfigData::default());
    assert_eq!(run_pre_rebase_hook_command(now, &config, true).exit_code(), 1);
}

#[test]
fn succeeds_with_gitclock_env_even_if_outside_timeslot() {
    let now = instant(Utc::now());
    let config = other_weekday_config("0900", "1200", "UTC", None);
    assert_eq!(run_pre_rebase_hook_command(now, &config, true).exit_code(), 0);
}

// gitclock push

#[test]
fn push_returns_error_with_empty_timeslots_config() {
    let config = Config::create_test_config(ConfigData::default());
    let shell = MockGitShell::new();
    let now = instant(Utc::now());
    assert_eq!(push_with_shell(now, &mut GitSession::new(&shell), &[], &config).exit_code(), 1);
}

#[test]
fn returns_error_when_pushing_outside_timeslots() {
    let _shell = MockGitShell::new();
    let _config = Config::create_test_config(ConfigData {
        timeslots: vec![slot("1-5", "0900", "1000")],
        timezone: Some("UTC".to_string()),
        allow_push_outside_timeslot: Some(false),
    });
}

#[test]
fn push_refuses_outside_timeslots_unless_allowed() {
    let shell = MockGitShell::new();
    let config = other_weekday_config("0900", "1000", "UTC", Some(false));
    assert_eq!(push_with_shell(instant(Utc::now()), &mut GitSession::new(&shell), &[], &config).exit_code(), 1);
    assert_eq!(shell.calls.borrow().len(), 0);
}

#[test]
fn pushes_commits_that_are_in_the_past() {
    let mut shell = MockGitShell::new();
    let commit_hash = "c".repeat(40);
    let log_hash = commit_hash.clone();
    let now = Utc::now();
    let until_arg = format!("--until=\"{}\"", now.to_rfc3339());
    shell.expect(
        Some("git"),
        args_eq(vec!["log".to_string(), until_arg, "--pretty=format:%H".to_string(), "-1".to_string()]),
        None,
        None,
        move |_, _| ok_output(0, &log_hash),
    );
    shell.expect(
        Some("git"),
        args_eq(strings(&["rev-parse", "--abbrev-ref", "@{push}"])),
        None,
        None,
        |_, _| ok_output(0, "origin/my-branch"),
    );
    shell.expect(
        Some("git"),
        args_eq(vec!["push".to_string(), "origin".to_string(), format!("{}:my-branch", commit_hash)]),
        None,
        None,
        |_, _| ok_output(0, ""),
    );

    let config = all_day_config("Europe/Paris", Some(true));
    assert_eq!(push_with_shell(instant(now), &mut GitSession::new(&shell), &[], &config).exit_code(), 0);
}

#[test]
fn fails_gracefully_when_passing_invalid_git_push_options() {
    let mut shell = MockGitShell::new();
    let log_hash = "c".repeat(40);
    let now = instant(Utc::now());
    shell.returning(move |binary, args| {
        if binary == "git" && args[0] == "log" {
            ok_output(0, &log_hash)
        } else if binary == "git" && args[0] == "rev-parse" {
            ok_output(0, "origin/my-branch")
        } else if binary == "git" && args[0] == "push" {
            ok_output(1, "")
        } else {
            Err(SpawnError {
                code: None,
                stdout: "".to_string(),
                stderr: "".to_string(),
                message: "unexpected".to_string(),
            })
        }
    });

    let config = all_day_config("Europe/Paris", Some(true));
    assert_eq!(push_with_shell(now, &mut GitSession::new(&shell), &[], &config).exit_code(), 1);
}

#[test]
fn fails_gracefully_when_there_are_no_commits_at_all() {
    let mut shell = MockGitShell::new();
    let now = instant(Utc::now());
    shell.returning(|_, _| {
        failure(Some(128), "fatal: your current branch 'master' does not have any commits yet")
    });

    let config = all_day_config("Europe/Paris", Some(true));
    assert_eq!(push_with_shell(now, &mut GitSession::new(&shell), &[], &config).exit_code(), 1);
}

#[test]
fn push_hands_user_args_before_remote_and_refspec() {
    let mut shell = MockGitShell::new();
    shell.returning(move |_, args| {
        if args[0] == "log" {
            ok_output(0, "abc\n")
        } else if args[0] == "rev-parse" {
            ok_output(0, "origin/feature/x\n")
        } else {
            ok_output(0, "")
        }
    });
    let config = all_day_config("UTC", None);
    assert_eq!(push_with_shell(instant(Utc::now()), &mut GitSession::new(&shell), &["--force".to_string()], &config).exit_code(), 0);
    let calls = shell.calls.borrow();
    assert_eq!(calls[2].1, strings(&["push", "--force", "origin", "abc:feature/x"]));
    assert!(calls[2].2);
}

// gitclock rebase

#[test]
fn rebase_returns_error_with_empty_timeslots_config() {
    let config = Config::create_test_config(ConfigData::default());
    let shell = MockGitShell::new();
    assert_eq!(rebase_with_shell(&mut GitSession::new(&shell), &[], &config).exit_code(), 1);
}

#[test]
fn runs_rebase_when_config_is_valid() {
    let mut shell = MockGitShell::new();
    shell.expect(
        Some("git"),
        args_eq(strings(&["rebase", "--committer-date-is-author-date", "--some", "option"])),
        Some(true),
        None,
        |_, _| ok_output(0, ""),
    );
    let config = all_day_config("Africa/Nairobi", None);
    assert_eq!(
        rebase_with_shell(&mut GitSession::new(&shell), &["--some".to_string(), "option".to_string()], &config).exit_code(),
        0
    );
}

// gitclock rewrite-history

#[test]
fn test_choose_min_date_for_new_commit() {
    let date1 = instant(Utc.with_ymd_and_hms(2023, 7, 4, 10, 0, 0).unwrap());
    let date2 = instant(Utc.with_ymd_and_hms(2023, 7, 4, 11, 0, 0).unwrap());
    let last = instant(Utc.with_ymd_and_hms(2023, 7, 4, 12, 0, 0).unwrap());

    assert_eq!(choose_min_date_for_new_commit(date1, date2, None), date2);
    assert_eq!(choose_min_date_for_new_commit(date2, date1, None), date2);
    assert_eq!(choose_min_date_for_new_commit(date1, date2, Some(last)), last);
    assert_eq!(choose_min_date_for_new_commit(date2, date1, Some(date1)), date2);
}

#[test]
fn test_rewrite_history_returns_1_if_no_timeslots() {
    let config = Config::create_test_config(ConfigData::default());
    let shell = MockGitShell::new();
    let now = instant(Utc::now());
    assert_eq!(rewrite_history_with_shell(now, &mut GitSession::new(&shell), None, &config).exit_code(), 1);
}

fn log_rule(shell: &mut MockGitShell, output: String) {
    shell.expect(
        Some("git"),
        args_eq(strings(&["log", "--pretty=format:%H %aI %cI", "--reverse"])),
        None,
        None,
        move |_, _| ok_output(0, &output),
    );
}

fn reset_rule(shell: &mut MockGitShell, sha: String) {
    shell.expect(
        Some("git"),
        args_eq(vec!["reset".to_string(), "--hard".to_string(), sha]),
        None,
        None,
        |_, _| ok_output(0, ""),
    );
}

fn any_terminal_rule(shell: &mut MockGitShell) {
    shell.expect(Some("git"), None, Some(true), None, |_, _| ok_output(0, ""));
}

fn cherry_pick_rule(shell: &mut MockGitShell, sha: String) {
    shell.expect(
        Some("git"),
        args_eq(vec!["cherry-pick".to_string(), sha]),
        None,
        None,
        |_, _| ok_output(0, ""),
    );
}

#[test]
fn test_rewrite_history_success() {
    let mut shell = MockGitShell::new();
    let now = instant(Utc::now());
    log_rule(
        &mut shell,
        format!(
            "{} 2023-07-04T10:00:00Z 2023-07-04T10:00:00Z\n{} 2023-07-04T11:00:00Z 2023-07-04T11:00:00Z",
            "a".repeat(40),
            "b".repeat(40)
        ),
    );
    reset_rule(&mut shell, "a".repeat(40));
    any_terminal_rule(&mut shell);
    cherry_pick_rule(&mut shell, "b".repeat(40));
    any_terminal_rule(&mut shell);

    let config = all_day_config("UTC", None);
    assert_eq!(rewrite_history_with_shell(now, &mut GitSession::new(&shell), None, &config).exit_code(), 0);
}

#[test]
fn test_rewrite_history_from_specific_commit_success() {
    let mut shell = MockGitShell::new();
    let now = instant(Utc.with_ymd_and_hms(2023, 7, 4, 18, 0, 0).unwrap());
    log_rule(
        &mut shell,
        format!(
            "{} 2023-07-04T10:00:00Z 2023-07-04T10:00:00Z\n{} 2023-07-04T11:00:00Z 2023-07-04T11:00:00Z\n{} 2023-07-04T12:00:00Z 2023-07-04T12:00:00Z",
            "a".repeat(40),
            "b".repeat(40),
            "c".repeat(40)
        ),
    );
    reset_rule(&mut shell, "b".repeat(40));
    any_terminal_rule(&mut shell);
    cherry_pick_rule(&mut shell, "c".repeat(40));
    any_terminal_rule(&mut shell);

    let config = all_day_config("UTC", None);
    assert_eq!(rewrite_history_with_shell(now, &mut GitSession::new(&shell), Some(&"b".repeat(40)), &config).exit_code(), 0);
}

#[test]
fn test_rewrite_history_from_short_hash_prefix() {
    let mut shell = MockGitShell::new();
    let now = instant(Utc.with_ymd_and_hms(2023, 7, 4, 18, 0, 0).unwrap());
    log_rule(
        &mut shell,
        format!(
            "{} 2023-07-04T10:00:00Z 2023-07-04T10:00:00Z\n{} 2023-07-04T11:00:00Z 2023-07-04T11:00:00Z",
            "a".repeat(40),
            "b".repeat(40)
        ),
    );
    reset_rule(&mut shell, "b".repeat(40));
    any_terminal_rule(&mut shell);

    let config = all_day_config("UTC", None);
    assert_eq!(rewrite_history_with_shell(now, &mut GitSession::new(&shell), Some(&"b".repeat(7)), &config).exit_code(), 0);
}

#[test]
fn test_rewrite_history_from_head_commit() {
    let mut shell = MockGitShell::new();
    let now = instant(Utc.with_ymd_and_hms(2023, 7, 4, 18, 0, 0).unwrap());
    log_rule(
        &mut shell,
        format!(
            "{} 2023-07-04T10:00:00Z 2023-07-04T10:00:00Z\n{} 2023-07-04T11:00:00Z 2023-07-04T11:00:00Z",
            "a".repeat(40),
            "b".repeat(40)
        ),
    );
    reset_rule(&mut shell, "b".repeat(40));
    any_terminal_rule(&mut shell);

    let config = all_day_config("UTC", None);
    assert_eq!(rewrite_history_with_shell(now, &mut GitSession::new(&shell), Some(&"b".repeat(40)), &config).exit_code(), 0);
}

#[test]
fn test_rewrite_history_from_unknown_commit_fails() {
    let mut shell = MockGitShell::new();
    let now = instant(Utc.with_ymd_and_hms(2023, 7, 4, 18, 0, 0).unwrap());
    log_rule(
        &mut shell,
        format!(
            "{} 2023-07-04T10:00:00Z 2023-07-04T10:00:00Z\n{} 2023-07-04T11:00:00Z 2023-07-04T11:00:00Z",
            "a".repeat(40),
            "b".repeat(40)
        ),
    );

    let config = all_day_config("UTC", None);
    assert_eq!(rewrite_history_with_shell(now, &mut GitSession::new(&shell), Some("deadbeef"), &config).exit_code(), 1);
}

#[test]
fn test_rewrite_history_from_commit_respects_parent_date() {
    let mut shell = MockGitShell::new();
    let now = instant(Utc.with_ymd_and_hms(2023, 7, 4, 18, 0, 0).unwrap());
    log_rule(
        &mut shell,
        format!(
            "{} 2023-07-04T15:00:00Z 2023-07-04T15:00:00Z\n{} 2023-07-04T10:00:00Z 2023-07-04T10:00:00Z",
            "a".repeat(40),
            "b".repeat(40)
        ),
    );
    reset_rule(&mut shell, "b".repeat(40));
    let minimum_expected_rewritten_timestamp =
        Utc.with_ymd_and_hms(2023, 7, 4, 15, 0, 0).unwrap().timestamp();
    shell.expect(
        Some("git"),
        Some(Box::new(move |args: &[String]| {
            if args.len() == 5
                && args[0] == "commit"
                && args[1] == "--amend"
                && args[2] == "--no-edit"
                && args[3] == "--date"
            {
                if let Some(ts_str) = args[4].split_whitespace().next() {
                    if let Ok(ts) = ts_str.parse::<i64>() {
                        return ts >= minimum_expected_rewritten_timestamp;
                    }
                }
            }
            false
        })),
        Some(true),
        None,
        |_, _| ok_output(0, ""),
    );

    let config = all_day_config("UTC", None);
    assert_eq!(rewrite_history_with_shell(now, &mut GitSession::new(&shell), Some(&"b".repeat(40)), &config).exit_code(), 0);
}

#[test]
fn rewrite_history_keeps_commits_in_date_order() {
    let mut shell = MockGitShell::new();
    let now = instant(Utc.with_ymd_and_hms(2024, 4, 19, 18, 0, 0).unwrap());
    log_rule(
        &mut shell,
        format!(
            "{} 2024-04-19T08:00:00Z 2024-04-19T08:00:00Z\n{} 2024-04-19T07:00:00Z 2024-04-19T09:30:00Z\n{} 2024-04-20T10:00:00Z 2024-04-20T10:00:00Z",
            "a".repeat(40),
            "b".repeat(40),
            "c".repeat(40)
        ),
    );
    shell.returning(|_, _| ok_output(0, ""));
    let config = Config::create_test_config(ConfigData {
        timeslots: vec![slot("1-5", "0900", "1700")],
        timezone: Some("UTC".to_string()),
        allow_push_outside_timeslot: None,
    });
    match rewrite_history_with_shell(now, &mut GitSession::new(&shell), None, &config) {
        RewriteOutcome::Rewritten { entries, start, rewritten } => {
            assert_eq!(entries.len(), 3);
            assert_eq!(start, 0);
            assert_eq!(rewritten.len(), 3);
            let dates: Vec<DateTime<Utc>> = rewritten.iter().map(|c| datetime(c.new_date)).collect();
            // Friday 09:00 is the first suitable date for the first commit.
            assert!(dates[0] >= Utc.with_ymd_and_hms(2024, 4, 19, 9, 1, 0).unwrap());
            assert!(dates[0] < Utc.with_ymd_and_hms(2024, 4, 19, 9, 16, 0).unwrap());
            assert!(dates[1] >= dates[0]);
            assert!(dates[1] >= Utc.with_ymd_and_hms(2024, 4, 19, 9, 30, 0).unwrap());
            // A Saturday commit moves to Monday morning.
            assert!(dates[2] >= Utc.with_ymd_and_hms(2024, 4, 22, 9, 1, 0).unwrap());
            assert!(dates[2] < Utc.with_ymd_and_hms(2024, 4, 22, 9, 16, 0).unwrap());
            let calls = shell.calls.borrow();
            assert_eq!(calls[1].1, strings(&["reset", "--hard", &"a".repeat(40)]));
            assert_eq!(calls[3].1, strings(&["cherry-pick", &"b".repeat(40)]));
            assert_eq!(calls[6].1[4], format!("{} +0000", dates[2].timestamp()));
        }
        other => panic!("unexpected {:?}", other),
    }
}

#[test]
fn rewrite_history_with_empty_log_does_nothing() {
    let mut shell = MockGitShell::new();
    shell.returning(|_, _| ok_output(0, "\n"));
    let config = all_day_config("UTC", None);
    let outcome = rewrite_history_with_shell(instant(Utc::now()), &mut GitSession::new(&shell), None, &config);
    assert!(matches!(outcome, RewriteOutcome::NoEntries));
    assert_eq!(outcome.exit_code(), 0);
    assert_eq!(shell.calls.borrow().len(), 1);
}

#[test]
fn pre_commit_decision_follows_the_read_date() {
    let now = instant(Utc.with_ymd_and_hms(2023, 7, 4, 10, 0, 0).unwrap());
    let later = instant(Utc.with_ymd_and_hms(2023, 7, 4, 11, 0, 0).unwrap());
    let earlier = instant(Utc.with_ymd_and_hms(2023, 7, 4, 9, 0, 0).unwrap());
    let plain = HookEnv { gitclock: false, committer_date_set: false };
    let dated = HookEnv { gitclock: false, committer_date_set: true };
    assert!(matches!(pre_commit_decision(now, plain, Ok(earlier)), PreCommitOutcome::Passed { last_commit_date } if last_commit_date == earlier));
    assert!(matches!(pre_commit_decision(now, plain, Ok(now)), PreCommitOutcome::Passed { .. }));
    assert!(matches!(pre_commit_decision(now, plain, Ok(later)), PreCommitOutcome::LastCommitInFuture { last_commit_date } if last_commit_date == later));
    assert!(matches!(pre_commit_decision(now, dated, Ok(later)), PreCommitOutcome::Passed { .. }));
    assert!(matches!(
        pre_commit_decision(now, plain, Err(GitError::Git("boom".to_string()))),
        PreCommitOutcome::LastCommitDateFailed(GitError::Git(ref s)) if s == "boom"
    ));
}

#[test]
fn pre_push_decision_follows_the_read_date() {
    let now = instant(Utc.with_ymd_and_hms(2023, 7, 4, 10, 0, 0).unwrap());
    let later = instant(Utc.with_ymd_and_hms(2023, 7, 4, 11, 0, 0).unwrap());
    assert!(matches!(pre_push_decision(now, false, Ok(now)), PrePushOutcome::Passed { object_date } if object_date == now));
    assert!(matches!(pre_push_decision(now, false, Ok(later)), PrePushOutcome::FutureCommits { object_date } if object_date == later));
    assert!(matches!(pre_push_decision(now, true, Ok(later)), PrePushOutcome::Passed { .. }));
    assert!(matches!(pre_push_decision(now, false, Err(GitError::ParseDate("bad".to_string()))), PrePushOutcome::ObjectDateFailed(_)));
}

#[test]
fn rewrite_history_stops_before_touching_a_commit_without_a_date() {
    let mut shell = MockGitShell::new();
    let log = format!(
        "{} 2023-07-04T10:00:00Z 2023-07-04T10:00:00Z\n{} 2023-07-04T11:00:00Z 2023-07-04T11:00:00Z",
        "a".repeat(40),
        "b".repeat(40)
    );
    shell.expect(Some("git"), None, Some(false), None, move |_, _| ok_output(0, &log));
    let config = Config::create_test_config(ConfigData {
        timeslots: vec![slot("1-7", "1700", "0900")],
        timezone: Some("UTC".to_string()),
        allow_push_outside_timeslot: None,
    });
    let now = instant(Utc.with_ymd_and_hms(2023, 7, 4, 18, 0, 0).unwrap());
    let outcome = rewrite_history_with_shell(now, &mut GitSession::new(&shell), None, &config);
    match &outcome {
        RewriteOutcome::NoSuitableDate { start, rewritten, .. } => {
            assert_eq!(*start, 0);
            assert!(rewritten.is_empty());
        }
        other => panic!("unexpected outcome {:?}", other),
    }
    assert_eq!(outcome.exit_code(), 1);
    assert_eq!(shell.calls.borrow().len(), 1);
}
