# pastor

Runs coding agents on machines you own. A head keeps one row per task, talks to the
herdr server of each machine, and starts tasks from job files on a schedule.

The crate in `src/` is the logic, verified with Verus: every function says in its
contract what it returns or changes, and nothing in it does I/O.

| Module      | What it holds                                                          |
|-------------|------------------------------------------------------------------------|
| `schedule`  | intervals and cron expressions, and when they fire next                |
| `scheduler` | which jobs are due, what one pass of a job does, what is reported      |
| `machine`   | a machine's connection, and how its tasks follow their agents          |
| `plugin`    | manifests, the catalog, sources, secrets, run logs, installing, listing |
| `setup`     | the systemd units, what setting them up runs, and the modes of files   |
| `cli`       | what the commands decide                                               |
| `task`      | a task's row, its states and its agent                                 |
| `time`, `calendar`, `zone` | points in time, dates, and the local zone               |
| `text`, `digits`, `quoting`, `document`, `json` | texts, numbers, quoting, TOML and JSON |

What rests on chrono, toml, serde_json and std is stated where it is called: in
`calendar`, `zone`, `document`, `json` and `text`.

Work that waits on a machine, the store or a program is written as steps: a value says
what to ask for next, and takes the answer. `machine::life`, `machine::poll`,
`machine::sweep`, `machine::settle`, `machine::chores`, `machine::close`,
`scheduler::run` and `setup` are written so.

`app/` is the program around the library: arguments, files, processes and sockets. The
transport to herdr and the database are the traits in `app/herdr.rs` and
`app/jobs.rs`. `tests/` runs the library.
