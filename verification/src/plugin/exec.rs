//! Running a plugin command: what it is, how it ended, and the log of its run.

use vstd::prelude::*;
use vstd::string::*;

use crate::digits;
use crate::plugin::catalog;
use crate::plugin::catalog::Redactor;
use crate::plugin::stamp;
use crate::text;
use crate::time::Duration;

verus! {

/// One run log is cut here; a connector that floods stderr must not fill the
/// disk.
pub const LOG_MAX_BYTES: u64 = 262_144;

/// Logs kept per job; older ones are deleted when a new one is created.
pub const LOG_KEEP: usize = 20;

/// Lines of stderr kept for the error message of a failed run.
pub const STDERR_TAIL: usize = 5;

// ---------------------------------------------------------------------------
// The log

/// What a run wrote to stderr, what pastor had to say about its stdout, and how it
/// ended. Every line goes through the plugin's `Redactor` first.
#[derive(Debug)]
pub struct RunLog {
    pub written: u64,
    pub max: u64,
    pub truncated: bool,
    pub redactor: Redactor,
}

/// What goes into the log's file.
#[derive(Debug)]
pub enum LogLine {
    Nothing,
    /// A line of the run.
    Line(String),
    /// The line that says that no more follow.
    Marker(String),
}

/// The bytes of a line in the file, with its line break.
pub open spec fn line_bytes(s: Seq<char>) -> nat {
    vstd::utf8::encode_utf8(s).len() + 1
}

/// The line that says that no more follow.
pub open spec fn marker_text(max: u64) -> Seq<char> {
    "[pastor: log truncated at "@ + digits::decimal(max as nat) + " bytes]"@
}

impl RunLog {
    /// No more was written than the log may hold.
    pub open spec fn wf(self) -> bool {
        self.written <= self.max
    }

    /// The text as the log shows it.
    pub open spec fn shows(self, s: Seq<char>) -> Seq<char> {
        catalog::redacted(catalog::env_texts(self.redactor.secrets@), s)
    }

    /// A new log.
    pub fn create_with(redactor: Redactor, max: u64) -> (r: RunLog)
        ensures
            r == (RunLog { written: 0, max, truncated: false, redactor }),
            r.wf(),
    {
        RunLog { written: 0, max, truncated: false, redactor }
    }

    /// A new log with the usual bound.
    pub fn create(redactor: Redactor) -> (r: RunLog)
        ensures
            r == (RunLog { written: 0, max: LOG_MAX_BYTES, truncated: false, redactor }),
            r.wf(),
    {
        RunLog::create_with(redactor, LOG_MAX_BYTES)
    }

    /// A line fits: the log with it holds no more than it may.
    pub open spec fn fits(self, s: Seq<char>) -> bool {
        self.written + line_bytes(self.shows(s)) <= self.max
    }

    /// The log after a line.
    pub open spec fn after(self, s: Seq<char>) -> RunLog {
        if self.truncated {
            self
        } else if self.fits(s) {
            RunLog { written: (self.written + line_bytes(self.shows(s))) as u64, ..self }
        } else {
            RunLog { truncated: true, ..self }
        }
    }

    /// One more line, redacted. Past the bound, one marker line and then nothing.
    pub fn line(&mut self, s: &str) -> (r: LogLine)
        requires
            old(self).wf(),
        ensures
            final(self).wf(),
            *final(self) == old(self).after(s@),
            if old(self).truncated {
                r is Nothing
            } else if old(self).fits(s@) {
                r matches LogLine::Line(t) && t@ == old(self).shows(s@)
            } else {
                r matches LogLine::Marker(t) && t@ == marker_text(old(self).max)
            },
    {
        if self.truncated {
            return LogLine::Nothing;
        }
        let shown = self.redactor.redact(s);
        let bytes = shown.as_str().as_bytes();
        let len: u128 = bytes.len() as u128 + 1;
        if self.written as u128 + len > self.max as u128 {
            self.truncated = true;
            let mut m = "[pastor: log truncated at ".to_owned();
            m.append(digits::print_number(self.max).as_str());
            m.append(" bytes]");
            LogLine::Marker(m)
        } else {
            self.written = (self.written as u128 + len) as u64;
            LogLine::Line(shown)
        }
    }

    /// A line could not be written: nothing more is, since a full disk must not
    /// fail the run it is recording.
    pub fn write_failed(&mut self)
        requires
            old(self).wf(),
        ensures
            final(self).wf(),
            *final(self) == (RunLog { truncated: true, ..*old(self) }),
    {
        self.truncated = true;
    }

    /// The text as the log would show it.
    pub fn redact(&self, s: &str) -> (r: String)
        ensures
            r@ == self.shows(s@),
    {
        self.redactor.redact(s)
    }
}

/// The log after some lines.
pub open spec fn logged(log: RunLog, lines: Seq<Seq<char>>) -> RunLog
    decreases lines.len(),
{
    if lines.len() == 0 {
        log
    } else {
        logged(log, lines.drop_last()).after(lines.last())
    }
}

/// The bytes that some lines take in the log's file, but for the marker.
pub open spec fn bytes_logged(log: RunLog, lines: Seq<Seq<char>>) -> nat
    decreases lines.len(),
{
    if lines.len() == 0 {
        0
    } else {
        let before = logged(log, lines.drop_last());
        bytes_logged(log, lines.drop_last()) + if !before.truncated && before.fits(lines.last()) {
            line_bytes(before.shows(lines.last()))
        } else {
            0
        }
    }
}

/// Whatever a run prints, its lines take no more room in the log than the log may
/// hold.
pub proof fn a_log_stays_within_its_bound(log: RunLog, lines: Seq<Seq<char>>)
    requires
        log.written == 0,
    ensures
        bytes_logged(log, lines) == logged(log, lines).written,
        bytes_logged(log, lines) <= log.max,
        logged(log, lines).max == log.max,
        logged(log, lines).redactor == log.redactor,
    decreases lines.len(),
{
    if lines.len() > 0 {
        a_log_stays_within_its_bound(log, lines.drop_last());
    }
}

/// A log that was cut stays cut: no line follows the marker.
pub proof fn nothing_follows_the_marker(log: RunLog, lines: Seq<Seq<char>>)
    requires
        log.truncated,
    ensures
        logged(log, lines) == log,
        bytes_logged(log, lines) == 0,
    decreases lines.len(),
{
    if lines.len() > 0 {
        nothing_follows_the_marker(log, lines.drop_last());
    }
}

/// The name of a log's file. Two runs of one job in the same millisecond race for
/// it; the loser takes the next suffix.
pub fn log_name(stamp: &str, n: u32) -> (r: String)
    ensures
        r@ == stamp::log_called(stamp@, n as nat),
{
    let mut s = stamp.to_owned();
    if n > 0 {
        s.append("-");
        s.append(digits::print_number(n as u64).as_str());
    }
    s.append(".log");
    proof {
        reveal_strlit("");
        assert(s@ =~= stamp::log_called(stamp@, n as nat));
    }
    s
}

/// The file is a log: something stands before `.log`.
pub open spec fn log_file(name: Seq<char>) -> bool {
    text::without_end(name, ".log"@) matches Some(stem) && stem.len() > 0
}

/// The logs among the files, in order.
pub open spec fn logs_of(names: Seq<String>) -> Seq<String>
    decreases names.len(),
{
    if names.len() == 0 {
        seq![]
    } else if log_file(names.last()@) {
        logs_of(names.drop_last()).push(names.last())
    } else {
        logs_of(names.drop_last())
    }
}

/// The logs to delete so that the newest `keep` stay, the oldest first.
pub fn prune(names: &Vec<String>, keep: usize) -> (r: Vec<String>)
    ensures
        exists|all: Seq<String>|
            {
                &&& #[trigger] stamp::by_age(text::texts(all))
                &&& all.to_multiset() == logs_of(names@).to_multiset()
                &&& r@ == if all.len() <= keep {
                    seq![]
                } else {
                    all.take(all.len() - keep)
                }
            },
{
    let mut logs: Vec<String> = Vec::new();
    let mut i: usize = 0;
    assert(logs@ =~= logs_of(names@.take(0)));
    while i < names.len()
        invariant
            i <= names@.len(),
            logs@ == logs_of(names@.take(i as int)),
        decreases names@.len() - i,
    {
        proof {
            assert(names@.take(i + 1).drop_last() =~= names@.take(i as int));
            assert(names@.take(i + 1).last() == names@[i as int]);
        }
        let is_log = match text::strip_end(names[i].as_str(), ".log") {
            Some(stem) => stem.as_str().unicode_len() > 0,
            None => false,
        };
        if is_log {
            logs.push(names[i].clone());
        }
        i = i + 1;
    }
    assert(names@.take(i as int) =~= names@);
    let mut all = stamp::sort_by_age(logs);
    let ghost whole = all@;
    assert(stamp::by_age(text::texts(whole)));
    if all.len() <= keep {
        let none: Vec<String> = Vec::new();
        assert(none@ =~= seq![]);
        return none;
    }
    let n: usize = all.len() - keep;
    all.truncate(n);
    assert(all@ =~= whole.take(n as int));
    all
}

// ---------------------------------------------------------------------------
// The command

/// What is run.
#[derive(Debug)]
pub struct Invocation {
    pub argv: Vec<String>,
    pub cwd: String,
    /// Added to pastor's own environment, in order; later entries win.
    pub env: Vec<(String, String)>,
    pub stdin: Vec<u8>,
    /// `None` runs until the command exits (stream connectors).
    pub timeout: Option<Duration>,
}

/// How a command ended.
#[derive(Debug)]
pub enum Exit {
    Code(i32),
    /// Killed by a signal pastor did not send.
    Signal(i32),
    TimedOut(Duration),
    SpawnFailed(String),
}

impl Exit {
    /// Whether the command did what it should.
    pub fn success(&self) -> (b: bool)
        ensures
            b == (*self == Exit::Code(0)),
    {
        match self {
            Exit::Code(c) => *c == 0,
            _ => false,
        }
    }

    /// The time is one whose seconds can be told.
    pub open spec fn describable(self) -> bool {
        self matches Exit::TimedOut(d) ==> d.valid()
    }

    /// How it is said.
    pub open spec fn text(self) -> Seq<char> {
        match self {
            Exit::Code(c) => "exit "@ + digits::signed_decimal(c as int),
            Exit::Signal(s) => "killed by signal "@ + digits::signed_decimal(s as int),
            Exit::TimedOut(d) => "timed out after "@ + digits::decimal(d.secs()) + "s"@,
            Exit::SpawnFailed(e) => "could not start: "@ + e@,
        }
    }

    /// How it is said.
    pub fn describe(&self) -> (r: String)
        requires
            self.describable(),
        ensures
            r@ == self.text(),
    {
        match self {
            Exit::Code(c) => {
                let mut s = "exit ".to_owned();
                s.append(digits::print_signed(*c as i64).as_str());
                s
            },
            Exit::Signal(n) => {
                let mut s = "killed by signal ".to_owned();
                s.append(digits::print_signed(*n as i64).as_str());
                s
            },
            Exit::TimedOut(d) => {
                let mut s = "timed out after ".to_owned();
                s.append(digits::print_number(d.as_secs()).as_str());
                s.append("s");
                s
            },
            Exit::SpawnFailed(e) => {
                let mut s = "could not start: ".to_owned();
                s.append(e.as_str());
                s
            },
        }
    }

    /// How a process ended that was waited for.
    pub fn of_status(code: Option<i32>, signal: Option<i32>) -> (r: Exit)
        ensures
            r == match (code, signal) {
                (Some(c), _) => Exit::Code(c),
                (None, Some(s)) => Exit::Signal(s),
                (None, None) => Exit::Code((-1) as i32),
            },
    {
        match (code, signal) {
            (Some(c), _) => Exit::Code(c),
            (None, Some(s)) => Exit::Signal(s),
            (None, None) => Exit::Code(-1),
        }
    }

    /// The line a log ends with.
    pub fn last_line(&self) -> (r: String)
        requires
            self.describable(),
        ensures
            r@ == "[pastor: "@ + self.text() + "]"@,
    {
        let mut s = "[pastor: ".to_owned();
        s.append(self.describe().as_str());
        s.append("]");
        s
    }
}

/// What waiting for a command came to.
#[derive(Debug)]
pub enum Waited {
    /// It ended, with a code or by a signal.
    Ended { code: Option<i32>, signal: Option<i32> },
    /// It could not be waited for.
    Failed(String),
    /// It was still going after its time, and was killed.
    TimedOut(Duration),
}

/// How a command ended that was waited for.
pub fn exit_of(waited: Waited) -> (r: Exit)
    ensures
        match waited {
            Waited::Ended { code, signal } => r == match (code, signal) {
                (Some(c), _) => Exit::Code(c),
                (None, Some(s)) => Exit::Signal(s),
                (None, None) => Exit::Code((-1) as i32),
            },
            Waited::Failed(e) => r matches Exit::SpawnFailed(m) && m@ == "wait: "@ + e@,
            Waited::TimedOut(d) => r == Exit::TimedOut(d),
        },
{
    match waited {
        Waited::Ended { code, signal } => Exit::of_status(code, signal),
        Waited::Failed(e) => {
            let mut m = "wait: ".to_owned();
            m.append(e.as_str());
            Exit::SpawnFailed(m)
        },
        Waited::TimedOut(d) => Exit::TimedOut(d),
    }
}

/// A command that ended.
#[derive(Debug)]
pub struct Finished {
    pub exit: Exit,
    /// The last few stderr lines, redacted, for an error message.
    pub stderr_tail: Vec<String>,
}

impl Finished {
    /// `exit 3: <last stderr line>`, the one-line reason a failed run reports.
    pub fn reason(&self) -> (r: String)
        requires
            self.exit.describable(),
        ensures
            r@ == if self.stderr_tail@.len() == 0 {
                self.exit.text()
            } else {
                self.exit.text() + ": "@ + self.stderr_tail@.last()@
            },
    {
        let mut s = self.exit.describe();
        let n: usize = self.stderr_tail.len();
        if n > 0 {
            s.append(": ");
            s.append(self.stderr_tail[n - 1].as_str());
        }
        s
    }
}

/// The last lines, with one more. The oldest goes once there are enough.
pub fn push_tail(tail: &mut Vec<String>, line: String)
    requires
        old(tail)@.len() <= STDERR_TAIL,
    ensures
        final(tail)@.len() <= STDERR_TAIL,
        final(tail)@ == (if old(tail)@.len() == STDERR_TAIL {
            old(tail)@.skip(1)
        } else {
            old(tail)@
        }).push(line),
{
    let ghost before = tail@;
    if tail.len() == STDERR_TAIL {
        tail.remove(0);
        assert(tail@ =~= before.skip(1));
    }
    tail.push(line);
}

/// A line of a command's stderr: it goes into the log, and among the last lines. Both
/// have it without the secrets.
pub fn stderr_line(log: &mut RunLog, tail: &mut Vec<String>, line: &str) -> (r: LogLine)
    requires
        old(log).wf(),
        old(tail)@.len() <= STDERR_TAIL,
    ensures
        final(log).wf(),
        *final(log) == old(log).after(line@),
        if old(log).truncated {
            r is Nothing
        } else if old(log).fits(line@) {
            r matches LogLine::Line(t) && t@ == old(log).shows(line@)
        } else {
            r matches LogLine::Marker(t) && t@ == marker_text(old(log).max)
        },
        final(tail)@.len() <= STDERR_TAIL,
        final(tail)@.len() > 0,
        final(tail)@.last()@ == old(log).shows(line@),
        final(tail)@.drop_last() == if old(tail)@.len() == STDERR_TAIL {
            old(tail)@.skip(1)
        } else {
            old(tail)@
        },
{
    let r = log.line(line);
    let shown = log.redact(line);
    let ghost kept = if tail@.len() == STDERR_TAIL {
        tail@.skip(1)
    } else {
        tail@
    };
    push_tail(tail, shown);
    assert(tail@.drop_last() =~= kept);
    r
}

/// The program is a file in the plugin's directory: a relative path with a slash.
pub open spec fn in_plugin_dir(program: Seq<char>) -> bool {
    program.contains('/') && program[0] != '/'
}

/// The program to start, or why there is none. A relative path with a slash
/// (`./poll`, `bin/poll`) means the plugin's file, whatever pastor's own directory
/// is.
pub fn program(argv: &Vec<String>, cwd: &str) -> (r: Result<String, Exit>)
    ensures
        if argv@.len() == 0 {
            r matches Err(Exit::SpawnFailed(e)) && e@ == "empty command"@
        } else {
            r matches Ok(p) && p@ == if in_plugin_dir(argv@[0]@) {
                text::path_join(cwd@, argv@[0]@)
            } else {
                argv@[0]@
            }
        },
{
    if argv.len() == 0 {
        return Err(Exit::SpawnFailed("empty command".to_owned()));
    }
    let p = argv[0].as_str();
    if text::contains_char(p, '/') && p.get_char(0) != '/' {
        Ok(text::join_path(cwd, p))
    } else {
        Ok(argv[0].clone())
    }
}

/// A command that could not be started.
pub fn spawn_failed(program: &str, error: &str) -> (r: Exit)
    ensures
        r matches Exit::SpawnFailed(e) && e@ == program@ + ": "@ + error@,
{
    let mut s = program.to_owned();
    s.append(": ");
    s.append(error);
    Exit::SpawnFailed(s)
}

/// A line that still fits goes into the log, without the secrets, and counts with its
/// line break; the first that does not is replaced by the marker, and nothing follows.
pub proof fn a_log_takes_lines_until_it_is_full(log: RunLog, s: Seq<char>)
    requires
        log.wf(),
    ensures
        ({
            let len = vstd::utf8::encode_utf8(
                catalog::redacted(catalog::env_texts(log.redactor.secrets@), s),
            ).len() + 1;
            &&& !log.truncated && log.written + len <= log.max ==> log.after(s).written == log.written
                + len && !log.after(s).truncated
            &&& !log.truncated && log.written + len > log.max ==> log.after(s).truncated
                && log.after(s).written == log.written
            &&& log.truncated ==> log.after(s) == log
            &&& log.after(s).max == log.max && log.after(s).redactor == log.redactor
        }),
{
}

/// A usual log holds 256 KiB, and starts empty.
pub proof fn a_usual_log_starts_empty(redactor: Redactor, r: RunLog)
    requires
        call_ensures(RunLog::create, (redactor,), r),
    ensures
        r.written == 0 && r.max == 256 * 1024 && !r.truncated && r.redactor == redactor,
{
}

/// Pruning deletes logs only, as many as there are too many, and leaves the newest.
pub proof fn pruning_leaves_the_newest_logs(names: &Vec<String>, keep: usize, r: Vec<String>)
    requires
        call_ensures(prune, (names, keep), r),
    ensures
        logs_of(names@).len() <= keep ==> r@.len() == 0,
        logs_of(names@).len() > keep ==> r@.len() == logs_of(names@).len() - keep,
        forall|i: int| 0 <= i < r@.len() ==> names@.contains(#[trigger] r@[i]) && log_file(r@[i]@),
{
    broadcast use {vstd::multiset::group_multiset_axioms, vstd::seq_lib::group_to_multiset_ensures};

    let all = choose|all: Seq<String>|
        {
            &&& #[trigger] stamp::by_age(text::texts(all))
            &&& all.to_multiset() == logs_of(names@).to_multiset()
            &&& r@ == if all.len() <= keep {
                seq![]
            } else {
                all.take(all.len() - keep)
            }
        };
    let logs = logs_of(names@);
    assert(all.len() == all.to_multiset().len());
    assert(logs.len() == logs.to_multiset().len());
    assert forall|i: int| 0 <= i < r@.len() implies names@.contains(#[trigger] r@[i]) && log_file(
        r@[i]@,
    ) by {
        assert(r@[i] == all[i]);
        assert(all.contains(all[i]));
        assert(all.to_multiset().count(all[i]) > 0);
        assert(logs.contains(all[i]));
        lemma_logs_are_logs(names@, all[i]);
    }
}

proof fn lemma_logs_are_logs(names: Seq<String>, x: String)
    requires
        logs_of(names).contains(x),
    ensures
        names.contains(x),
        log_file(x@),
    decreases names.len(),
{
    let all = logs_of(names);
    let k = choose|k: int| 0 <= k < all.len() && all[k] == x;
    if names.len() > 0 {
        let rest = names.drop_last();
        let first = logs_of(rest);
        if k < first.len() {
            assert(first[k] == x);
            lemma_logs_are_logs(rest, x);
            let i = choose|i: int| 0 <= i < rest.len() && rest[i] == x;
            assert(names[i] == x);
        } else {
            assert(names[names.len() - 1] == x);
        }
    }
}

/// What a command's end means: only an exit with 0 is a success; one without a code was
/// killed by its signal; one that ran out of time was not waited for any longer.
pub proof fn what_the_end_of_a_command_means(
    code: Option<i32>,
    signal: Option<i32>,
    limit: Duration,
    ended: Exit,
    late: Exit,
    ok: bool,
    late_ok: bool,
)
    requires
        call_ensures(exit_of, (Waited::Ended { code, signal },), ended),
        call_ensures(exit_of, (Waited::TimedOut(limit),), late),
        call_ensures(Exit::success, (&ended,), ok),
        call_ensures(Exit::success, (&late,), late_ok),
    ensures
        ok <==> code == Some(0i32),
        code is None && signal is Some ==> ended == Exit::Signal(signal->0),
        code is Some ==> ended == Exit::Code(code->0),
        late == Exit::TimedOut(limit) && !late_ok,
{
}

/// The program of a command: a relative path with a slash is the plugin's own file, and
/// anything else is found as it stands.
pub proof fn where_the_program_of_a_command_is(argv: &Vec<String>, cwd: &str, r: Result<String, Exit>)
    requires
        call_ensures(program, (argv, cwd), r),
    ensures
        argv@.len() == 0 ==> r is Err,
        argv@.len() > 0 && (!argv@[0]@.contains('/') || argv@[0]@[0] == '/') ==> (r matches Ok(p)
            && p@ == argv@[0]@),
        argv@.len() > 0 && argv@[0]@.contains('/') && argv@[0]@[0] != '/' && cwd@.len() > 0
            && cwd@.last() != '/' ==> (r matches Ok(p) && p@ == cwd@ + seq!['/'] + argv@[0]@),
{
    reveal_strlit("/");
    assert("/"@ =~= seq!['/']);
}

/// No log that is left is older than one that is deleted.
pub proof fn pruning_deletes_the_oldest_logs(
    names: &Vec<String>,
    keep: usize,
    r: Vec<String>,
    left: String,
    i: int,
)
    requires
        call_ensures(prune, (names, keep), r),
        names@.contains(left),
        log_file(left@),
        !r@.contains(left),
        0 <= i < r@.len(),
    ensures
        !stamp::older(left@, r@[i]@),
{
    broadcast use {vstd::multiset::group_multiset_axioms, vstd::seq_lib::group_to_multiset_ensures};

    let all = choose|all: Seq<String>|
        {
            &&& #[trigger] stamp::by_age(text::texts(all))
            &&& all.to_multiset() == logs_of(names@).to_multiset()
            &&& r@ == if all.len() <= keep {
                seq![]
            } else {
                all.take(all.len() - keep)
            }
        };
    lemma_every_log_is_there(names@, left);
    assert(logs_of(names@).to_multiset().count(left) > 0);
    assert(all.contains(left));
    let j = all.index_of(left);
    if j < r@.len() {
        assert(r@[j] == left);
    }
    assert(r@[i] == all[i]);
    let t = text::texts(all);
    assert(t[j] == left@ && t[i] == r@[i]@);
}

proof fn lemma_every_log_is_there(names: Seq<String>, x: String)
    requires
        names.contains(x),
        log_file(x@),
    ensures
        logs_of(names).contains(x),
    decreases names.len(),
{
    let i = names.index_of(x);
    let all = logs_of(names);
    let rest = names.drop_last();
    if i < rest.len() {
        assert(rest[i] == x);
        lemma_every_log_is_there(rest, x);
        let k = logs_of(rest).index_of(x);
        assert(all[k] == x);
    } else {
        assert(all[all.len() - 1] == x);
    }
}

} // verus!
