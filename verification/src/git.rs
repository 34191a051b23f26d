//! Git invocations: the arguments handed to `git`, and what its output
//! means.

use vstd::prelude::*;
use std::collections::HashMap;
use crate::clock::{known_timezone, rfc3339_parse, rfc3339_text, utc_offset, git_date_text, git_date_at, parse_rfc3339, format_rfc3339};
use crate::instant::Instant;
use crate::spawn::{SpawnResult, SpawnError, spec_exit_code, exit_code};
use crate::text::{chars_of, string_of, trim, trim_bounds, has_infix, contains, until_char, find_char, split_on, words, word_bounds, lemma_until_char_bound};

verus! {

/// Runs programs on behalf of the library. `spawn_async` runs `binary` with
/// `args` and the extra environment `env`, with the standard streams
/// inherited (`inherit_stdio`) or captured, and reports how it ended.
///
/// Each implementation may say, through `ran`, which runs it makes: `ran`
/// holds of a program, its arguments, the stream choice, the environment and
/// the answer whenever `spawn_async` was asked exactly that and gave that
/// answer. An implementation that does not define `ran` keeps the default,
/// which claims nothing; implementations outside this crate are not checked
/// against it. The library's code is proved for every implementation, so it
/// asks each shell exactly what its contracts record.
pub trait GitShell {
    /// This shell ran `binary` with `args`, `inherit_stdio` and the extra
    /// variables `env`, and the run gave `answer`.
    closed spec fn ran(
        &self,
        binary: Seq<char>,
        args: Seq<Seq<char>>,
        inherit_stdio: bool,
        env: Map<String, String>,
        answer: Result<SpawnResult, SpawnError>,
    ) -> bool {
        true
    }

    fn spawn_async(
        &self,
        binary: &str,
        args: &[String],
        inherit_stdio: bool,
        env: HashMap<String, String>,
    ) -> (r: Result<SpawnResult, SpawnError>)
        ensures
            self.ran(binary@, args.deep_view(), inherit_stdio, env@, r),
    ;
}

/// One run of a program: what was asked of the shell, and what came back.
pub struct ShellCall {
    pub binary: Seq<char>,
    pub args: Seq<Seq<char>>,
    pub inherit_stdio: bool,
    pub env: Seq<(Seq<char>, Seq<char>)>,
    pub answer: Result<SpawnResult, SpawnError>,
}

/// The names and values of a list of environment variables.
pub open spec fn env_view(vars: Seq<(String, String)>) -> Seq<(Seq<char>, Seq<char>)> {
    vars.map_values(|p: (String, String)| (p.0@, p.1@))
}

/// `call` ran `git` with `args`, its output captured (`inherit_stdio`
/// false) or on the terminal, and the extra variables `env`.
pub open spec fn is_git_call(call: ShellCall, args: Seq<Seq<char>>, inherit_stdio: bool, env: Seq<
    (Seq<char>, Seq<char>),
>) -> bool {
    &&& call.binary == "git"@
    &&& call.args == args
    &&& call.inherit_stdio == inherit_stdio
    &&& call.env == env
}

/// `after` is `before` with one more run, of `git` with `args`, `inherit_stdio`
/// and `env`.
pub open spec fn one_git_call(before: Seq<ShellCall>, after: Seq<ShellCall>, args: Seq<Seq<char>>, inherit_stdio: bool, env: Seq<
    (Seq<char>, Seq<char>),
>) -> bool {
    &&& after.len() == before.len() + 1
    &&& after.drop_last() == before
    &&& is_git_call(after.last(), args, inherit_stdio, env)
}

/// A shell, and the record of every run made through it by the library, in
/// order, each with the answer it gave.
pub struct GitSession<S> {
    pub shell: S,
    pub calls: Ghost<Seq<ShellCall>>,
}

impl<S: GitShell> GitSession<S> {
    /// A session over `shell`, with no run recorded yet.
    pub fn new(shell: S) -> (r: Self)
        ensures
            r.shell == shell,
            r.calls@ == Seq::<ShellCall>::empty(),
    {
        GitSession { shell, calls: Ghost(Seq::empty()) }
    }

    /// Runs `binary` with `args` and the extra variables `env`, its output
    /// captured or on the terminal (`inherit_stdio`), and records the run.
    /// The shell is asked exactly this (see `GitShell::ran`), with the
    /// variables handed over as a map built by `env_map`; the record holds
    /// them as listed.
    pub fn run(&mut self, binary: &str, args: &[String], inherit_stdio: bool, env: Vec<(String, String)>) -> (r: Result<
        SpawnResult,
        SpawnError,
    >)
        ensures
            final(self).shell == old(self).shell,
            final(self).calls@ == old(self).calls@.push(
                ShellCall {
                    binary: binary@,
                    args: args.deep_view(),
                    inherit_stdio,
                    env: env_view(env@),
                    answer: r,
                },
            ),
            final(self).calls@.len() == old(self).calls@.len() + 1,
            final(self).calls@.drop_last() == old(self).calls@,
            exists|m: Map<String, String>| {
                &&& #[trigger] old(self).shell.ran(binary@, args.deep_view(), inherit_stdio, m, r)
                &&& vstd::std_specs::hash::obeys_key_model::<String>() ==> m == vars_map(env@)
            },
    {
        let ghost asked_env = env_view(env@);
        let ghost vars = env@;
        let m = env_map(env);
        let ghost handed = m@;
        let r = self.shell.spawn_async(binary, args, inherit_stdio, m);
        assert(self.shell.ran(binary@, args.deep_view(), inherit_stdio, handed, r));
        assert(vstd::std_specs::hash::obeys_key_model::<String>() ==> handed == vars_map(vars));
        self.calls = Ghost(
            self.calls@.push(
                ShellCall {
                    binary: binary@,
                    args: args.deep_view(),
                    inherit_stdio,
                    env: asked_env,
                    answer: r,
                },
            ),
        );
        assert(self.calls@.drop_last() =~= old(self).calls@);
        r
    }
}

/// A string holding the given text.
fn text(s: &str) -> (r: String)
    ensures
        r@ == s@,
{
    String::from_str(s)
}

/// `prefix` followed by a copy of `args`.
fn prefixed_args(mut prefix: Vec<String>, args: &[String]) -> (r: Vec<String>)
    ensures
        r.deep_view() == prefix.deep_view() + args.deep_view(),
{
    let ghost start = prefix.deep_view();
    for i in 0..args.len()
        invariant
            prefix.deep_view() == start + args.deep_view().take(i as int),
    {
        let ghost before = prefix.deep_view();
        let c = args[i].clone();
        assert(c@ == args@[i as int]@);
        prefix.push(c);
        assert(prefix.deep_view() =~= before.push(args@[i as int]@));
        assert(args.deep_view().take(i + 1) =~= args.deep_view().take(i as int).push(
            args@[i as int]@,
        ));
        assert(start + args.deep_view().take(i + 1) =~= (start + args.deep_view().take(
            i as int,
        )).push(args@[i as int]@));
    }
    assert(args.deep_view().take(args@.len() as int) == args.deep_view());
    prefix
}

/// `git log -1 --format=%cI`: the committer date of the last commit.
pub open spec fn spec_last_commit_date_args() -> Seq<Seq<char>> {
    seq!["log"@, "-1"@, "--format=%cI"@]
}

/// `git rev-parse --abbrev-ref @{push}`: where `git push` pushes to.
pub open spec fn spec_tracking_remote_args() -> Seq<Seq<char>> {
    seq!["rev-parse"@, "--abbrev-ref"@, "@{push}"@]
}

/// `git log --until="<now>" --pretty=format:%H -1`: the last commit dated
/// no later than `now`.
pub open spec fn spec_first_past_commit_args(now: Instant) -> Seq<Seq<char>> {
    seq![
        "log"@,
        "--until=\""@ + rfc3339_text(now.secs, now.nanos) + "\""@,
        "--pretty=format:%H"@,
        "-1"@,
    ]
}

/// `git show -s --format=%cI <object>`: the committer date of an object.
pub open spec fn spec_push_object_date_args(object_name: Seq<char>) -> Seq<Seq<char>> {
    seq!["show"@, "-s"@, "--format=%cI"@, object_name]
}

/// `git log --pretty=format:%H %aI %cI --reverse`: every commit, oldest first.
pub open spec fn spec_log_args() -> Seq<Seq<char>> {
    seq!["log"@, "--pretty=format:%H %aI %cI"@, "--reverse"@]
}

/// `git commit --date <git_date>` followed by `args`.
pub open spec fn spec_commit_args(git_date: Seq<char>, args: Seq<Seq<char>>) -> Seq<Seq<char>> {
    seq!["commit"@, "--date"@, git_date] + args
}

/// `git commit --amend --no-edit --date <git_date>`.
pub open spec fn spec_amend_args(git_date: Seq<char>) -> Seq<Seq<char>> {
    seq!["commit"@, "--amend"@, "--no-edit"@, "--date"@, git_date]
}

/// `git cherry-pick <sha>`.
pub open spec fn spec_cherry_pick_args(sha: Seq<char>) -> Seq<Seq<char>> {
    seq!["cherry-pick"@, sha]
}

/// `git reset --hard <sha>`.
pub open spec fn spec_reset_hard_args(sha: Seq<char>) -> Seq<Seq<char>> {
    seq!["reset"@, "--hard"@, sha]
}

/// The variables that set the author and the committer date to `git_date`.
pub open spec fn spec_date_env(git_date: Seq<char>) -> Seq<(Seq<char>, Seq<char>)> {
    seq![("GIT_AUTHOR_DATE"@, git_date), ("GIT_COMMITTER_DATE"@, git_date)]
}

/// `date` as Git reads it, with the offset of `timezone` at that instant.
pub open spec fn git_date_of(date: Instant, timezone: Seq<char>) -> Seq<char> {
    git_date_text(date.secs, utc_offset(timezone, date.secs))
}

/// Arguments that ask for the committer date of the last commit.
pub fn last_commit_date_args() -> (r: Vec<String>)
    ensures
        r.deep_view() == spec_last_commit_date_args(),
{
    let mut r = Vec::new();
    r.push(text("log"));
    r.push(text("-1"));
    r.push(text("--format=%cI"));
    assert(r.deep_view() == seq!["log"@, "-1"@, "--format=%cI"@]);
    r
}

/// Arguments that ask for the remote branch that `git push` pushes to.
pub fn tracking_remote_args() -> (r: Vec<String>)
    ensures
        r.deep_view() == spec_tracking_remote_args(),
{
    let mut r = Vec::new();
    r.push(text("rev-parse"));
    r.push(text("--abbrev-ref"));
    r.push(text("@{push}"));
    assert(r.deep_view() == seq!["rev-parse"@, "--abbrev-ref"@, "@{push}"@]);
    r
}

/// Arguments that ask for the hash of the last commit dated no later than
/// `now`.
pub fn first_past_commit_args(now: Instant) -> (r: Vec<String>)
    requires
        now.valid(),
    ensures
        r.deep_view() == spec_first_past_commit_args(now),
{
    let mut until = text("--until=\"");
    let date = format_rfc3339(now);
    until.append(date.as_str());
    until.append("\"");
    let mut r = Vec::new();
    r.push(text("log"));
    r.push(until);
    r.push(text("--pretty=format:%H"));
    r.push(text("-1"));
    assert(r.deep_view() == seq![
        "log"@,
        "--until=\""@ + rfc3339_text(now.secs, now.nanos) + "\""@,
        "--pretty=format:%H"@,
        "-1"@,
    ]);
    r
}

/// Arguments that ask for the committer date of `object_name`.
pub fn push_object_date_args(object_name: &str) -> (r: Vec<String>)
    ensures
        r.deep_view() == spec_push_object_date_args(object_name@),
{
    let mut r = Vec::new();
    r.push(text("show"));
    r.push(text("-s"));
    r.push(text("--format=%cI"));
    r.push(text(object_name));
    assert(r.deep_view() == seq!["show"@, "-s"@, "--format=%cI"@, object_name@]);
    r
}

/// Arguments that ask for every commit, oldest first, as hash, author date
/// and committer date.
pub fn log_args() -> (r: Vec<String>)
    ensures
        r.deep_view() == spec_log_args(),
{
    let mut r = Vec::new();
    r.push(text("log"));
    r.push(text("--pretty=format:%H %aI %cI"));
    r.push(text("--reverse"));
    assert(r.deep_view() == seq!["log"@, "--pretty=format:%H %aI %cI"@, "--reverse"@]);
    r
}

/// Arguments that commit with the date `git_date`, followed by `args`.
pub fn commit_args(git_date: &str, args: &[String]) -> (r: Vec<String>)
    ensures
        r.deep_view() == spec_commit_args(git_date@, args.deep_view()),
{
    let mut p = Vec::new();
    p.push(text("commit"));
    p.push(text("--date"));
    p.push(text(git_date));
    assert(p.deep_view() == seq!["commit"@, "--date"@, git_date@]);
    prefixed_args(p, args)
}

/// Arguments that give the last commit the date `git_date`, message kept.
pub fn amend_args(git_date: &str) -> (r: Vec<String>)
    ensures
        r.deep_view() == spec_amend_args(git_date@),
{
    let mut r = Vec::new();
    r.push(text("commit"));
    r.push(text("--amend"));
    r.push(text("--no-edit"));
    r.push(text("--date"));
    r.push(text(git_date));
    assert(r.deep_view() == seq!["commit"@, "--amend"@, "--no-edit"@, "--date"@, git_date@]);
    r
}

/// Arguments that apply commit `sha` on top of the current one.
pub fn cherry_pick_args(sha: &str) -> (r: Vec<String>)
    ensures
        r.deep_view() == spec_cherry_pick_args(sha@),
{
    let mut r = Vec::new();
    r.push(text("cherry-pick"));
    r.push(text(sha));
    assert(r.deep_view() == seq!["cherry-pick"@, sha@]);
    r
}

/// Arguments that reset the branch and working tree to commit `sha`.
pub fn reset_hard_args(sha: &str) -> (r: Vec<String>)
    ensures
        r.deep_view() == spec_reset_hard_args(sha@),
{
    let mut r = Vec::new();
    r.push(text("reset"));
    r.push(text("--hard"));
    r.push(text(sha));
    assert(r.deep_view() == seq!["reset"@, "--hard"@, sha@]);
    r
}

/// `git <command>` followed by `args`.
pub fn subcommand_args(command: &str, args: &[String]) -> (r: Vec<String>)
    ensures
        r.deep_view() == seq![command@] + args.deep_view(),
{
    let mut p = Vec::new();
    p.push(text(command));
    assert(p.deep_view() == seq![command@]);
    prefixed_args(p, args)
}

/// The environment that sets both the author and the committer date.
pub fn date_env(git_date: &str) -> (r: Vec<(String, String)>)
    ensures
        env_view(r@) == spec_date_env(git_date@),
{
    let mut r = Vec::new();
    r.push((text("GIT_AUTHOR_DATE"), text(git_date)));
    r.push((text("GIT_COMMITTER_DATE"), text(git_date)));
    assert(env_view(r@) =~= spec_date_env(git_date@));
    r
}

/// The variables as a map from name to value, a later one winning on a
/// repeated name.
pub open spec fn vars_map(vars: Seq<(String, String)>) -> Map<String, String>
    decreases vars.len(),
{
    if vars.len() == 0 {
        Map::empty()
    } else {
        vars_map(vars.drop_last()).insert(vars.last().0, vars.last().1)
    }
}

/// A map holding the given variables (a later one wins on a repeated name).
/// vstd describes what `HashMap::insert` does only for key types that obey
/// its key model, which it leaves open for `String`; the contract is stated
/// under that condition.
fn env_map(vars: Vec<(String, String)>) -> (r: HashMap<String, String>)
    ensures
        vstd::std_specs::hash::obeys_key_model::<String>() ==> r@ == vars_map(vars@),
{
    broadcast use vstd::std_specs::hash::group_hash_axioms;
    let mut m: HashMap<String, String> = HashMap::new();
    for i in 0..vars.len()
        invariant
            vstd::std_specs::hash::obeys_key_model::<String>() ==> m@ == vars_map(vars@.take(i as int)),
    {
        let (k, v) = (vars[i].0.clone(), vars[i].1.clone());
        assert(vars@.take(i + 1).drop_last() == vars@.take(i as int));
        m.insert(k, v);
    }
    assert(vars@.take(vars@.len() as int) == vars@);
    m
}

/// Runs `binary` with `args` and the variables `env` added, on the
/// terminal, and gives its exit code.
pub fn run_command_with_args<S: GitShell>(git: &mut GitSession<S>, binary: &str, args: &[String], env: Vec<
    (String, String),
>) -> (r: i32)
    ensures
        final(git).shell == old(git).shell,
        final(git).calls@.len() == old(git).calls@.len() + 1,
        final(git).calls@.drop_last() == old(git).calls@,
        final(git).calls@.last().binary == binary@,
        final(git).calls@.last().args == args.deep_view(),
        final(git).calls@.last().inherit_stdio,
        final(git).calls@.last().env == env_view(env@),
        r == spec_exit_code(final(git).calls@.last().answer),
{
    let outcome = git.run(binary, args, true, env);
    exit_code(&outcome)
}

/// Writes `date` as Git reads it, with the offset of `timezone` at that
/// instant: `1688457600 +0300`.
pub fn format_date_to_git_date(date: Instant, timezone: &str) -> (r: String)
    requires
        date.valid(),
        known_timezone(timezone@),
    ensures
        r@ == git_date_text(date.secs, utc_offset(timezone@, date.secs)),
{
    git_date_at(timezone, date.secs)
}

/// Commits with `date`, written in `timezone`, as both author and committer
/// date, handing `args` on to `git commit`; gives the exit code.
pub fn git_commit_with_shell<S: GitShell>(git: &mut GitSession<S>, date: Instant, timezone: &str, args: &[String]) -> (r: i32)
    requires
        date.valid(),
        known_timezone(timezone@),
    ensures
        final(git).shell == old(git).shell,
        one_git_call(old(git).calls@, final(git).calls@, spec_commit_args(git_date_of(date, timezone@), args.deep_view()),
            true, spec_date_env(git_date_of(date, timezone@))),
        r == spec_exit_code(final(git).calls@.last().answer),
{
    let git_date = format_date_to_git_date(date, timezone);
    let env = date_env(git_date.as_str());
    let git_args = commit_args(git_date.as_str(), args);
    run_command_with_args(git, "git", git_args.as_slice(), env)
}

/// Gives the last commit the date `new_date`, written in `timezone`, as
/// author and committer date; gives the exit code.
pub fn amend_with_new_date_with_shell<S: GitShell>(git: &mut GitSession<S>, new_date: Instant, timezone: &str) -> (r: i32)
    requires
        new_date.valid(),
        known_timezone(timezone@),
    ensures
        final(git).shell == old(git).shell,
        one_git_call(old(git).calls@, final(git).calls@, spec_amend_args(git_date_of(new_date, timezone@)), true,
            spec_date_env(git_date_of(new_date, timezone@))),
        r == spec_exit_code(final(git).calls@.last().answer),
{
    let git_date = format_date_to_git_date(new_date, timezone);
    let env = date_env(git_date.as_str());
    let git_args = amend_args(git_date.as_str());
    run_command_with_args(git, "git", git_args.as_slice(), env)
}

/// Applies commit `sha` on top of the current one; gives the exit code.
pub fn cherry_pick_with_shell<S: GitShell>(git: &mut GitSession<S>, sha: &str) -> (r: i32)
    ensures
        final(git).shell == old(git).shell,
        one_git_call(old(git).calls@, final(git).calls@, spec_cherry_pick_args(sha@), true, seq![]),
        r == spec_exit_code(final(git).calls@.last().answer),
{
    let git_args = cherry_pick_args(sha);
    let env: Vec<(String, String)> = Vec::new();
    assert(env_view(env@) =~= seq![]);
    run_command_with_args(git, "git", git_args.as_slice(), env)
}

/// Resets the branch and working tree to commit `sha`; gives the exit code.
pub fn reset_hard_with_shell<S: GitShell>(git: &mut GitSession<S>, sha: &str) -> (r: i32)
    ensures
        final(git).shell == old(git).shell,
        one_git_call(old(git).calls@, final(git).calls@, spec_reset_hard_args(sha@), true, seq![]),
        r == spec_exit_code(final(git).calls@.last().answer),
{
    let git_args = reset_hard_args(sha);
    let env: Vec<(String, String)> = Vec::new();
    assert(env_view(env@) =~= seq![]);
    run_command_with_args(git, "git", git_args.as_slice(), env)
}

/// Runs `git push` with `args`; gives the exit code.
pub fn git_push_with_shell<S: GitShell>(git: &mut GitSession<S>, args: &[String]) -> (r: i32)
    ensures
        final(git).shell == old(git).shell,
        one_git_call(old(git).calls@, final(git).calls@, seq!["push"@] + args.deep_view(), true, seq![]),
        r == spec_exit_code(final(git).calls@.last().answer),
{
    let git_args = subcommand_args("push", args);
    let env: Vec<(String, String)> = Vec::new();
    assert(env_view(env@) =~= seq![]);
    run_command_with_args(git, "git", git_args.as_slice(), env)
}

/// Runs `git rebase` with `args`; gives the exit code.
pub fn git_rebase_with_shell<S: GitShell>(git: &mut GitSession<S>, args: &[String]) -> (r: i32)
    ensures
        final(git).shell == old(git).shell,
        one_git_call(old(git).calls@, final(git).calls@, seq!["rebase"@] + args.deep_view(), true, seq![]),
        r == spec_exit_code(final(git).calls@.last().answer),
{
    let git_args = subcommand_args("rebase", args);
    let env: Vec<(String, String)> = Vec::new();
    assert(env_view(env@) =~= seq![]);
    run_command_with_args(git, "git", git_args.as_slice(), env)
}

/// Why a question to Git got no usable answer.
#[derive(Debug)]
pub enum GitError {
    /// Git failed; its error output is given.
    Git(String),
    /// The last commit date could not be read: the parse error and the output.
    ParseLastCommitDate { error: String, output: String },
    /// The output did not have the expected shape; the output is given.
    UnexpectedOutput(String),
    /// A date could not be read; the parse error is given.
    ParseDate(String),
}

/// The content of a `GitError`.
pub enum GitFailure {
    Git(Seq<char>),
    ParseLastCommitDate { error: Seq<char>, output: Seq<char> },
    UnexpectedOutput(Seq<char>),
    ParseDate(Seq<char>),
}

impl View for GitError {
    type V = GitFailure;

    open spec fn view(&self) -> GitFailure {
        match self {
            GitError::Git(s) => GitFailure::Git(s@),
            GitError::ParseLastCommitDate { error, output } => GitFailure::ParseLastCommitDate {
                error: error@,
                output: output@,
            },
            GitError::UnexpectedOutput(s) => GitFailure::UnexpectedOutput(s@),
            GitError::ParseDate(s) => GitFailure::ParseDate(s@),
        }
    }
}

/// The message shown for a failure.
pub open spec fn git_failure_text(f: GitFailure) -> Seq<char> {
    match f {
        GitFailure::Git(s) => "Git error: "@ + s,
        GitFailure::ParseLastCommitDate { error, output } => "Failed to parse last commit date: "@
            + error + ". Output was: '"@ + output + "'"@,
        GitFailure::UnexpectedOutput(s) => "Unexpected output format: "@ + s,
        GitFailure::ParseDate(s) => s,
    }
}

impl GitError {
    /// The message shown for this failure.
    pub fn message(&self) -> (r: String)
        ensures
            r@ == git_failure_text(self@),
    {
        match self {
            GitError::Git(s) => {
                let mut r = text("Git error: ");
                r.append(s.as_str());
                r
            },
            GitError::ParseLastCommitDate { error, output } => {
                let mut r = text("Failed to parse last commit date: ");
                r.append(error.as_str());
                r.append(". Output was: '");
                r.append(output.as_str());
                r.append("'");
                r
            },
            GitError::UnexpectedOutput(s) => {
                let mut r = text("Unexpected output format: ");
                r.append(s.as_str());
                r
            },
            GitError::ParseDate(s) => s.clone(),
        }
    }
}

/// A result with its error taken by its content.
pub open spec fn failure_view<T>(r: Result<T, GitError>) -> Result<T, GitFailure> {
    match r {
        Ok(v) => Ok(v),
        Err(e) => Err(e@),
    }
}

/// The text given for a date outside the range the library handles.
pub open spec fn out_of_range_text() -> Seq<char> {
    "date is out of the supported range"@
}

/// The instant an RFC 3339 text denotes, or why there is none: the parse
/// error, or that the instant lies outside the supported range.
pub open spec fn instant_of_rfc3339(text: Seq<char>) -> Result<Instant, Seq<char>> {
    match rfc3339_parse(text) {
        Err(e) => Err(e),
        Ok((secs, nanos)) => if (Instant { secs, nanos }).valid() {
            Ok(Instant { secs, nanos })
        } else {
            Err(out_of_range_text())
        },
    }
}

/// Reads an RFC 3339 date.
pub fn parse_instant(s: &str) -> (r: Result<Instant, String>)
    ensures
        match instant_of_rfc3339(s@) {
            Ok(i) => r == Ok::<Instant, String>(i),
            Err(e) => r matches Err(m) && m@ == e,
        },
        r matches Ok(i) ==> i.valid(),
{
    match parse_rfc3339(s) {
        Ok((secs, nanos)) => match Instant::new(secs, nanos) {
            Some(i) => Ok(i),
            None => Err(text("date is out of the supported range")),
        },
        Err(e) => Err(e),
    }
}

/// The trimmed text of a string.
fn trimmed(s: &String) -> (r: String)
    ensures
        r@ == trim(s@),
{
    let v = chars_of(s.as_str());
    let (lo, hi) = trim_bounds(v.as_slice());
    string_of(v.as_slice(), lo, hi)
}

/// What the answer to `git log -1 --format=%cI` means: the date of the last
/// commit; `now` when the output is empty or Git reports that there are no
/// commits yet; otherwise the failure.
pub open spec fn spec_last_commit_date(now: Instant, outcome: Result<SpawnResult, SpawnError>) -> Result<
    Instant,
    GitFailure,
> {
    match outcome {
        Ok(res) => {
            let out = trim(res.stdout@);
            if out.len() == 0 {
                Ok(now)
            } else {
                match instant_of_rfc3339(out) {
                    Ok(i) => Ok(i),
                    Err(e) => Err(GitFailure::ParseLastCommitDate { error: e, output: out }),
                }
            }
        },
        Err(e) => if has_infix(e.stderr@, "does not have any commits yet"@) || has_infix(
            e.stderr@,
            "bad default revision 'HEAD'"@,
        ) {
            Ok(now)
        } else {
            Err(GitFailure::Git(e.stderr@))
        },
    }
}

/// Reads the answer to `git log -1 --format=%cI`.
pub fn last_commit_date_from(now: Instant, outcome: Result<SpawnResult, SpawnError>) -> (r: Result<
    Instant,
    GitError,
>)
    requires
        now.valid(),
    ensures
        failure_view(r) == spec_last_commit_date(now, outcome),
        r matches Ok(i) ==> i.valid(),
{
    match outcome {
        Ok(res) => {
            let out = trimmed(&res.stdout);
            if out.unicode_len() == 0 {
                return Ok(now);
            }
            match parse_instant(out.as_str()) {
                Ok(i) => Ok(i),
                Err(e) => Err(GitError::ParseLastCommitDate { error: e, output: out }),
            }
        },
        Err(e) => {
            let err = chars_of(e.stderr.as_str());
            let none_yet = chars_of("does not have any commits yet");
            let no_head = chars_of("bad default revision 'HEAD'");
            if contains(err.as_slice(), none_yet.as_slice()) || contains(
                err.as_slice(),
                no_head.as_slice(),
            ) {
                Ok(now)
            } else {
                Err(GitError::Git(e.stderr))
            }
        },
    }
}

/// Asks Git for the date of the last commit (see `spec_last_commit_date`).
pub fn get_last_commit_date_with_shell<S: GitShell>(git: &mut GitSession<S>, now: Instant) -> (r: Result<
    Instant,
    GitError,
>)
    requires
        now.valid(),
    ensures
        final(git).shell == old(git).shell,
        one_git_call(old(git).calls@, final(git).calls@, spec_last_commit_date_args(), false, seq![]),
        failure_view(r) == spec_last_commit_date(now, final(git).calls@.last().answer),
        r matches Ok(i) ==> i.valid(),
{
    let args = last_commit_date_args();
    let env: Vec<(String, String)> = Vec::new();
    assert(env_view(env@) =~= seq![]);
    let outcome = git.run("git", args.as_slice(), false, env);
    last_commit_date_from(now, outcome)
}

/// The remote and branch that `git push` pushes to.
pub struct TrackingRemote {
    pub remote: String,
    pub branch: String,
}

/// What the answer to `git rev-parse --abbrev-ref @{push}` means: in the
/// trimmed output `remote/branch`, the remote is the text before the first
/// `/` and the branch the text after it.
pub open spec fn spec_tracking_remote(outcome: Result<SpawnResult, SpawnError>) -> Result<
    (Seq<char>, Seq<char>),
    GitFailure,
> {
    match outcome {
        Ok(res) => {
            let out = trim(res.stdout@);
            let k = until_char(out, '/');
            if k < out.len() {
                Ok((out.take(k as int), out.skip(k + 1 as int)))
            } else {
                Err(GitFailure::UnexpectedOutput(res.stdout@))
            }
        },
        Err(e) => Err(GitFailure::Git(e.stderr@)),
    }
}

/// `r` holds what `spec_tracking_remote` makes of `outcome`.
pub open spec fn tracking_remote_answers(r: Result<TrackingRemote, GitError>, outcome: Result<
    SpawnResult,
    SpawnError,
>) -> bool {
    match spec_tracking_remote(outcome) {
        Ok((remote, branch)) => r matches Ok(t) && t.remote@ == remote && t.branch@ == branch,
        Err(f) => r matches Err(e) && e@ == f,
    }
}

/// The remote and the branch read from `remote/branch`, joined again by
/// `/`, give back the trimmed output, and the remote holds no `/`.
pub proof fn law_tracking_remote_rejoins(outcome: Result<SpawnResult, SpawnError>)
    ensures
        spec_tracking_remote(outcome) matches Ok((remote, branch)) ==> {
            &&& outcome matches Ok(res) && remote + seq!['/'] + branch == trim(res.stdout@)
            &&& !remote.contains('/')
        },
{
    if let Ok(res) = outcome {
        let out = trim(res.stdout@);
        lemma_until_char_bound(out, '/');
        let k = until_char(out, '/');
        if k < out.len() {
            assert(out.take(k as int) + seq!['/'] + out.skip(k + 1 as int) =~= out);
        }
    }
}

/// Reads the answer to `git rev-parse --abbrev-ref @{push}`.
pub fn tracking_remote_from(outcome: Result<SpawnResult, SpawnError>) -> (r: Result<
    TrackingRemote,
    GitError,
>)
    ensures
        tracking_remote_answers(r, outcome),
{
    match outcome {
        Ok(res) => {
            let v = chars_of(res.stdout.as_str());
            let (lo, hi) = trim_bounds(v.as_slice());
            let k = find_char(v.as_slice(), lo, hi, '/');
            proof {
                let out = v@.subrange(lo as int, hi as int);
                lemma_until_char_bound(out, '/');
                assert(out.take((k - lo) as int) == v@.subrange(lo as int, k as int));
                assert(k < hi ==> out.skip(k - lo + 1) == v@.subrange(k + 1, hi as int));
            }
            if k < hi {
                Ok(
                    TrackingRemote {
                        remote: string_of(v.as_slice(), lo, k),
                        branch: string_of(v.as_slice(), k + 1, hi),
                    },
                )
            } else {
                Err(GitError::UnexpectedOutput(res.stdout))
            }
        },
        Err(e) => Err(GitError::Git(e.stderr)),
    }
}

/// Asks Git for the remote and branch that `git push` pushes to (see
/// `spec_tracking_remote`).
pub fn get_tracking_remote_and_branch_with_shell<S: GitShell>(git: &mut GitSession<S>) -> (r: Result<
    TrackingRemote,
    GitError,
>)
    ensures
        final(git).shell == old(git).shell,
        one_git_call(old(git).calls@, final(git).calls@, spec_tracking_remote_args(), false, seq![]),
        tracking_remote_answers(r, final(git).calls@.last().answer),
{
    let args = tracking_remote_args();
    let env: Vec<(String, String)> = Vec::new();
    assert(env_view(env@) =~= seq![]);
    let outcome = git.run("git", args.as_slice(), false, env);
    tracking_remote_from(outcome)
}

/// The last commit dated no later than a given instant.
pub struct PastCommit {
    pub commit_hash: String,
}

/// What the answer to `git log --until=... --pretty=format:%H -1` means: the
/// trimmed output is the hash.
pub open spec fn spec_first_past_commit(outcome: Result<SpawnResult, SpawnError>) -> Result<
    Seq<char>,
    GitFailure,
> {
    match outcome {
        Ok(res) => Ok(trim(res.stdout@)),
        Err(e) => Err(GitFailure::Git(e.stderr@)),
    }
}

/// `r` holds what `spec_first_past_commit` makes of `outcome`.
pub open spec fn first_past_commit_answers(r: Result<PastCommit, GitError>, outcome: Result<
    SpawnResult,
    SpawnError,
>) -> bool {
    match spec_first_past_commit(outcome) {
        Ok(hash) => r matches Ok(p) && p.commit_hash@ == hash,
        Err(f) => r matches Err(e) && e@ == f,
    }
}

/// Reads the answer to `git log --until=... --pretty=format:%H -1`.
pub fn first_past_commit_from(outcome: Result<SpawnResult, SpawnError>) -> (r: Result<
    PastCommit,
    GitError,
>)
    ensures
        first_past_commit_answers(r, outcome),
{
    match outcome {
        Ok(res) => Ok(PastCommit { commit_hash: trimmed(&res.stdout) }),
        Err(e) => Err(GitError::Git(e.stderr)),
    }
}

/// Asks Git for the hash of the last commit dated no later than `now`.
pub fn get_first_past_commit_hash_with_shell<S: GitShell>(git: &mut GitSession<S>, now: Instant) -> (r: Result<
    PastCommit,
    GitError,
>)
    requires
        now.valid(),
    ensures
        final(git).shell == old(git).shell,
        one_git_call(old(git).calls@, final(git).calls@, spec_first_past_commit_args(now), false, seq![]),
        first_past_commit_answers(r, final(git).calls@.last().answer),
{
    let args = first_past_commit_args(now);
    let env: Vec<(String, String)> = Vec::new();
    assert(env_view(env@) =~= seq![]);
    let outcome = git.run("git", args.as_slice(), false, env);
    first_past_commit_from(outcome)
}

/// What the answer to `git show -s --format=%cI <object>` means: the date in
/// the trimmed output.
pub open spec fn spec_push_object_date(outcome: Result<SpawnResult, SpawnError>) -> Result<
    Instant,
    GitFailure,
> {
    match outcome {
        Ok(res) => match instant_of_rfc3339(trim(res.stdout@)) {
            Ok(i) => Ok(i),
            Err(e) => Err(GitFailure::ParseDate(e)),
        },
        Err(e) => Err(GitFailure::Git(e.stderr@)),
    }
}

/// Reads the answer to `git show -s --format=%cI <object>`.
pub fn push_object_date_from(outcome: Result<SpawnResult, SpawnError>) -> (r: Result<
    Instant,
    GitError,
>)
    ensures
        failure_view(r) == spec_push_object_date(outcome),
        r matches Ok(i) ==> i.valid(),
{
    match outcome {
        Ok(res) => {
            let out = trimmed(&res.stdout);
            match parse_instant(out.as_str()) {
                Ok(i) => Ok(i),
                Err(e) => Err(GitError::ParseDate(e)),
            }
        },
        Err(e) => Err(GitError::Git(e.stderr)),
    }
}

/// Asks Git for the committer date of `object_name` (see
/// `spec_push_object_date`).
pub fn get_push_object_date_with_shell<S: GitShell>(git: &mut GitSession<S>, object_name: &str) -> (r: Result<
    Instant,
    GitError,
>)
    ensures
        final(git).shell == old(git).shell,
        one_git_call(old(git).calls@, final(git).calls@, spec_push_object_date_args(object_name@), false, seq![]),
        failure_view(r) == spec_push_object_date(final(git).calls@.last().answer),
        r matches Ok(i) ==> i.valid(),
{
    let args = push_object_date_args(object_name);
    let env: Vec<(String, String)> = Vec::new();
    assert(env_view(env@) =~= seq![]);
    let outcome = git.run("git", args.as_slice(), false, env);
    push_object_date_from(outcome)
}

/// One commit of the log: its hash, author date and committer date.
#[derive(Debug)]
pub struct LogEntry {
    pub sha: String,
    pub author_date: Instant,
    pub commit_date: Instant,
}

/// The content of a `LogEntry`.
pub struct LogEntrySpec {
    pub sha: Seq<char>,
    pub author_date: Instant,
    pub commit_date: Instant,
}

impl View for LogEntry {
    type V = LogEntrySpec;

    open spec fn view(&self) -> LogEntrySpec {
        LogEntrySpec { sha: self.sha@, author_date: self.author_date, commit_date: self.commit_date }
    }
}

/// What one line of `git log --pretty=format:'%H %aI %cI'` means, given its
/// words: nothing unless there are exactly three, else the entry, or the
/// failure to read its author date, then its committer date.
pub open spec fn spec_log_line(fields: Seq<Seq<char>>) -> Option<Result<LogEntrySpec, GitFailure>> {
    if fields.len() == 3 {
        match instant_of_rfc3339(fields[1]) {
            Err(e) => Some(Err(GitFailure::ParseDate(e))),
            Ok(author_date) => match instant_of_rfc3339(fields[2]) {
                Err(e) => Some(Err(GitFailure::ParseDate(e))),
                Ok(commit_date) => Some(
                    Ok(LogEntrySpec { sha: fields[0], author_date, commit_date }),
                ),
            },
        }
    } else {
        None
    }
}

/// The entries that the lines give, in order, or the failure of the first
/// line that fails.
pub open spec fn spec_log_lines(lines: Seq<Seq<char>>) -> Result<Seq<LogEntrySpec>, GitFailure>
    decreases lines.len(),
{
    if lines.len() == 0 {
        Ok(Seq::empty())
    } else {
        match spec_log_line(words(lines[0])) {
            None => spec_log_lines(lines.drop_first()),
            Some(Err(f)) => Err(f),
            Some(Ok(e)) => match spec_log_lines(lines.drop_first()) {
                Ok(es) => Ok(seq![e] + es),
                Err(f) => Err(f),
            },
        }
    }
}

/// What the answer to `git log --pretty=format:'%H %aI %cI' --reverse`
/// means: the entries of the lines of the trimmed output.
pub open spec fn spec_log_entries(outcome: Result<SpawnResult, SpawnError>) -> Result<
    Seq<LogEntrySpec>,
    GitFailure,
> {
    match outcome {
        Ok(res) => spec_log_lines(split_on(trim(res.stdout@), '\n')),
        Err(e) => Err(GitFailure::Git(e.stderr@)),
    }
}

/// The contents of a list of entries.
pub open spec fn entries_view(v: Seq<LogEntry>) -> Seq<LogEntrySpec> {
    v.map_values(|e: LogEntry| e@)
}

/// `r` holds what `spec_log_entries` makes of `outcome`.
pub open spec fn log_entries_answer(r: Result<Vec<LogEntry>, GitError>, outcome: Result<
    SpawnResult,
    SpawnError,
>) -> bool {
    match spec_log_entries(outcome) {
        Ok(es) => r matches Ok(v) && entries_view(v@) == es,
        Err(f) => r matches Err(e) && e@ == f,
    }
}

/// `acc` followed by what `rest` gives.
pub open spec fn prepend_entries(acc: Seq<LogEntrySpec>, rest: Result<Seq<LogEntrySpec>, GitFailure>) -> Result<
    Seq<LogEntrySpec>,
    GitFailure,
> {
    match rest {
        Ok(es) => Ok(acc + es),
        Err(f) => Err(f),
    }
}

/// Reads the line `v[lo..hi]` of the log.
fn log_line_from(v: &Vec<char>, lo: usize, hi: usize) -> (r: Option<Result<LogEntry, GitError>>)
    requires
        lo <= hi <= v@.len(),
    ensures
        match spec_log_line(words(v@.subrange(lo as int, hi as int))) {
            None => r is None,
            Some(Ok(e)) => r matches Some(Ok(entry)) && entry@ == e,
            Some(Err(f)) => r matches Some(Err(err)) && err@ == f,
        },
{
    let b = word_bounds(v.as_slice(), lo, hi);
    if b.len() != 3 {
        return None;
    }
    let sha = string_of(v.as_slice(), b[0].0, b[0].1);
    let author = string_of(v.as_slice(), b[1].0, b[1].1);
    let commit = string_of(v.as_slice(), b[2].0, b[2].1);
    let author_date = match parse_instant(author.as_str()) {
        Ok(d) => d,
        Err(e) => return Some(Err(GitError::ParseDate(e))),
    };
    let commit_date = match parse_instant(commit.as_str()) {
        Ok(d) => d,
        Err(e) => return Some(Err(GitError::ParseDate(e))),
    };
    Some(Ok(LogEntry { sha, author_date, commit_date }))
}

/// Reads the answer to `git log --pretty=format:'%H %aI %cI' --reverse`.
pub fn log_entries_from(outcome: Result<SpawnResult, SpawnError>) -> (r: Result<
    Vec<LogEntry>,
    GitError,
>)
    ensures
        log_entries_answer(r, outcome),
        r matches Ok(v) ==> forall|i: int|
            0 <= i < v@.len() ==> (#[trigger] v@[i]).author_date.valid()
                && v@[i].commit_date.valid(),
{
    let ghost given = outcome;
    let res = match outcome {
        Ok(res) => res,
        Err(e) => return Err(GitError::Git(e.stderr)),
    };
    assert(given == Ok::<SpawnResult, SpawnError>(res));
    let v = chars_of(res.stdout.as_str());
    let (lo, hi) = trim_bounds(v.as_slice());
    let ghost whole = split_on(v@.subrange(lo as int, hi as int), '\n');
    let mut acc: Vec<LogEntry> = Vec::new();
    let mut p = lo;
    loop
        invariant
            lo <= p <= hi <= v@.len(),
            whole == split_on(trim(res.stdout@), '\n'),
            given == outcome,
            spec_log_entries(given) == spec_log_lines(whole),
            v@ == res.stdout@,
            spec_log_lines(whole) == prepend_entries(
                entries_view(acc@),
                spec_log_lines(split_on(v@.subrange(p as int, hi as int), '\n')),
            ),
            forall|i: int|
                0 <= i < acc@.len() ==> (#[trigger] acc@[i]).author_date.valid()
                    && acc@[i].commit_date.valid(),
        decreases hi - p,
    {
        let q = find_char(v.as_slice(), p, hi, '\n');
        let ghost rest = v@.subrange(p as int, hi as int);
        let ghost lines = split_on(rest, '\n');
        proof {
            lemma_until_char_bound(rest, '\n');
            assert(rest.take((q - p) as int) == v@.subrange(p as int, q as int));
            if q < hi {
                assert(rest.skip(q - p + 1) == v@.subrange(q + 1, hi as int));
                assert(lines.drop_first() == split_on(v@.subrange(q + 1, hi as int), '\n'));
            } else {
                assert(rest == v@.subrange(p as int, q as int));
                assert(lines.drop_first() == Seq::<Seq<char>>::empty());
            }
            assert(lines[0] == v@.subrange(p as int, q as int));
        }
        match log_line_from(&v, p, q) {
            None => {
                assert(spec_log_lines(lines) == spec_log_lines(lines.drop_first()));
            },
            Some(Err(e)) => {
                assert(spec_log_lines(lines) == Err::<Seq<LogEntrySpec>, GitFailure>(e@));
                return Err(e);
            },
            Some(Ok(entry)) => {
                let ghost before = entries_view(acc@);
                let ghost ev = entry@;
                assert(spec_log_lines(lines) == match spec_log_lines(lines.drop_first()) {
                    Ok(es) => Ok(seq![ev] + es),
                    Err(f) => Err(f),
                });
                acc.push(entry);
                proof {
                    assert(entries_view(acc@) == before.push(ev));
                    match spec_log_lines(lines.drop_first()) {
                        Ok(es) => {
                            assert(before.push(ev) + es == before + (seq![ev] + es));
                        },
                        Err(_) => {},
                    }
                }
            },
        }
        if q == hi {
            proof {
                assert(spec_log_lines(Seq::<Seq<char>>::empty()) == Ok::<
                    Seq<LogEntrySpec>,
                    GitFailure,
                >(Seq::empty()));
                assert(entries_view(acc@) + Seq::<LogEntrySpec>::empty() == entries_view(acc@));
            }
            return Ok(acc);
        }
        p = q + 1;
    }
}

/// Asks Git for every commit, oldest first, with its dates (see
/// `spec_log_entries`).
pub fn get_log_sha_and_dates_with_shell<S: GitShell>(git: &mut GitSession<S>) -> (r: Result<
    Vec<LogEntry>,
    GitError,
>)
    ensures
        final(git).shell == old(git).shell,
        one_git_call(old(git).calls@, final(git).calls@, spec_log_args(), false, seq![]),
        log_entries_answer(r, final(git).calls@.last().answer),
        r matches Ok(v) ==> forall|i: int|
            0 <= i < v@.len() ==> (#[trigger] v@[i]).author_date.valid()
                && v@[i].commit_date.valid(),
{
    let args = log_args();
    let env: Vec<(String, String)> = Vec::new();
    assert(env_view(env@) =~= seq![]);
    let outcome = git.run("git", args.as_slice(), false, env);
    log_entries_from(outcome)
}

} // verus!
