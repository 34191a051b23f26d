# gitclock

Schedules Git commit dates inside weekly timeslots (for example Monday to
Friday, 09:00 to 17:00 in `Europe/Paris`), so that a commit log shows only
the hours and the time zone its author chooses.

## Layout

- `src/` is the library, verified with Verus:
  - `instant.rs`: UTC instants and minute steps;
  - `timeslot.rs`: parsing timeslots, whether an instant falls in one, and
    the next suitable date;
  - `config.rs`: the configuration and its validation;
  - `git.rs`: the arguments handed to `git`, what its output means, and
    `GitSession`, which records every run with its answer so that the
    contracts can say which commands ran and how each outcome follows;
  - `commands/`: the decisions of each command (`commit`, `push`, `rebase`,
    `rewrite-history`, the hooks, `config` and `timeslot`);
  - `clock.rs`, `random.rs`: the calls into `chrono`, `chrono-tz` and
    `rand`, with the contracts the rest of the library relies on.
- `app/` is the command line: argument parsing, the configuration file,
  running processes and printing.
- `tests/` runs the library on concrete values.
