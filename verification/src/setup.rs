//! `pastor setup systemd [--herdr]`: install the shipped user unit, enable and
//! start it, and check what a unit needs to outlive a login (lingering) and
//! which modes pastor's own files must have.
//!
//! A setup is a value that says which `systemctl` or `loginctl` call comes next and
//! is told what came of it. Whoever drives it makes the calls through a [`Runner`], so
//! tests script their answers instead of touching the real user manager.

use vstd::prelude::*;
use vstd::string::*;

use crate::digits;
use crate::quoting;
use crate::text;
use crate::text::Trim;

verus! {

/// The unit that runs `pastor serve`.
pub const PASTOR_UNIT: &'static str = "[Unit]\nDescription=pastor: run coding agents on machines you own\nWants=network-online.target\nAfter=network-online.target\n\n[Service]\nExecStart=%h/.cargo/bin/pastor serve\nRestart=on-failure\nRestartSec=5\nStandardOutput=journal\nStandardError=journal\n\n[Install]\nWantedBy=default.target\n";

/// The unit that runs the herdr server.
pub const HERDR_UNIT: &'static str = "[Unit]\nDescription=herdr server\nWants=network-online.target\nAfter=network-online.target\n\n[Service]\nExecStart=%h/.local/bin/herdr server\nRestart=on-failure\nRestartSec=5\nStandardOutput=journal\nStandardError=journal\n\n[Install]\nWantedBy=default.target\n";

/// A unit that pastor ships.
#[derive(Debug, Clone, Copy, PartialEq, Eq, Structural)]
pub enum Unit {
    Pastor,
    Herdr,
}

impl Unit {
    /// The name of the unit's file.
    pub open spec fn called(self) -> Seq<char> {
        match self {
            Unit::Pastor => "pastor.service"@,
            Unit::Herdr => "herdr.service"@,
        }
    }

    /// The name of the unit's file.
    pub fn file_name(self) -> (r: &'static str)
        ensures
            r@ == self.called(),
    {
        match self {
            Unit::Pastor => "pastor.service",
            Unit::Herdr => "herdr.service",
        }
    }

    /// The unit as it is shipped.
    pub fn template(self) -> (r: &'static str)
        ensures
            r@ == match self {
                Unit::Pastor => PASTOR_UNIT@,
                Unit::Herdr => HERDR_UNIT@,
            },
    {
        match self {
            Unit::Pastor => PASTOR_UNIT,
            Unit::Herdr => HERDR_UNIT,
        }
    }
}

/// What a command printed and whether it exited 0.
#[derive(Debug, Clone)]
pub struct CmdOutput {
    pub success: bool,
    pub stdout: String,
    pub stderr: String,
}

impl Default for CmdOutput {
    fn default() -> (r: CmdOutput)
        ensures
            !r.success,
            r.stdout@.len() == 0,
            r.stderr@.len() == 0,
    {
        CmdOutput { success: false, stdout: String::new(), stderr: String::new() }
    }
}

/// Runs an external program to completion. The seam the tests replace.
pub trait Runner {
    /// What the program printed, or why it could not be run.
    fn run(&self, program: &str, args: &Vec<String>) -> (r: Result<CmdOutput, String>);
}

// ---------------------------------------------------------------------------
// The unit's text

/// The `Environment=` lines.
pub open spec fn environment(env: Seq<(String, String)>) -> Seq<char>
    decreases env.len(),
{
    if env.len() == 0 {
        seq![]
    } else {
        environment(env.drop_last()) + "Environment="@ + quoting::unit_word(
            env.last().0@ + "="@ + env.last().1@,
        ) + "\n"@
    }
}

/// What a line of the template becomes: `ExecStart` runs another program with the
/// same arguments, and the environment follows it.
pub open spec fn render_line(line: Seq<char>, program: Seq<char>, env: Seq<(String, String)>) -> Seq<char> {
    if text::occurs_at(line, "ExecStart="@, 0) {
        "ExecStart="@ + quoting::unit_word(program) + (match text::split_once(
            line.skip("ExecStart="@.len() as int),
            ' ',
        ) {
            Some((_, args)) => " "@ + args,
            None => ""@,
        }) + "\n"@ + environment(env)
    } else {
        line + "\n"@
    }
}

/// What the lines become, one after another.
pub open spec fn render_lines(lines: Seq<Seq<char>>, program: Seq<char>, env: Seq<(String, String)>) -> Seq<char>
    decreases lines.len(),
{
    if lines.len() == 0 {
        seq![]
    } else {
        render_lines(lines.drop_last(), program, env) + render_line(lines.last(), program, env)
    }
}

fn environment_lines(env: &Vec<(String, String)>) -> (r: String)
    ensures
        r@ == environment(env@),
{
    let mut out = String::new();
    let mut i: usize = 0;
    assert(out@ =~= environment(env@.take(0)));
    while i < env.len()
        invariant
            i <= env@.len(),
            out@ == environment(env@.take(i as int)),
        decreases env@.len() - i,
    {
        proof {
            assert(env@.take(i + 1).drop_last() =~= env@.take(i as int));
            assert(env@.take(i + 1).last() == env@[i as int]);
        }
        let mut word = env[i].0.clone();
        word.append("=");
        word.append(env[i].1.as_str());
        out.append("Environment=");
        out.append(quoting::quote(word.as_str()).as_str());
        out.append("\n");
        i = i + 1;
    }
    assert(env@.take(i as int) =~= env@);
    out
}

fn rendered_line(line: &str, program: &str, env: &Vec<(String, String)>) -> (r: String)
    ensures
        r@ == render_line(line@, program@, env@),
{
    if text::starts_with(line, "ExecStart=") {
        let v = text::chars_of(line);
        let n: usize = "ExecStart=".unicode_len();
        let rest = text::slice_of(&v, n, v.len());
        assert(rest@ =~= line@.skip(n as int));
        let mut out = "ExecStart=".to_owned();
        out.append(quoting::quote(program).as_str());
        if let Some((_, args)) = text::cut_once(rest.as_str(), ' ') {
            out.append(" ");
            out.append(args.as_str());
        }
        out.append("\n");
        out.append(environment_lines(env).as_str());
        proof {
            reveal_strlit("");
            assert(out@ =~= render_line(line@, program@, env@));
        }
        out
    } else {
        let mut out = line.to_owned();
        out.append("\n");
        out
    }
}

/// The shipped unit with ExecStart's program replaced by `program` and one
/// `Environment=` line per assignment right after it.
pub fn render(template: &str, program: &str, env: &Vec<(String, String)>) -> (r: String)
    ensures
        r@ == render_lines(text::lines(template@), program@, env@),
{
    let lines = text::split_lines(template);
    let ghost all = text::lines(template@);
    let mut out = String::new();
    let mut i: usize = 0;
    assert(out@ =~= render_lines(all.take(0), program@, env@));
    while i < lines.len()
        invariant
            i <= lines@.len(),
            all == text::texts(lines@),
            out@ == render_lines(all.take(i as int), program@, env@),
        decreases lines@.len() - i,
    {
        proof {
            assert(all.take(i + 1).drop_last() =~= all.take(i as int));
            assert(all.take(i + 1).last() == all[i as int]);
        }
        out.append(rendered_line(lines[i].as_str(), program, env).as_str());
        i = i + 1;
    }
    assert(all.take(i as int) =~= all);
    out
}

/// One `setup systemd` run, with everything it would otherwise read from the
/// environment spelled out.
#[derive(Debug)]
pub struct Install {
    pub unit: Unit,
    /// `~/.config/systemd/user` in production.
    pub unit_dir: String,
    /// Absolute path of the binary ExecStart runs.
    pub program: String,
    /// `Environment=` assignments added to `[Service]`, in order.
    pub env: Vec<(String, String)>,
}

/// What became of the unit's file.
#[derive(Debug, PartialEq, Eq)]
pub enum Written {
    Created,
    Unchanged,
    /// The previous file differed and was moved to `backup`.
    Updated { backup: String },
}

/// What is to be done about the unit's file.
#[derive(Debug)]
pub struct WritePlan {
    pub written: Written,
    /// The text to write, if any.
    pub text: Option<String>,
}

impl Install {
    /// Where the unit goes.
    pub open spec fn path(self) -> Seq<char> {
        text::path_join(self.unit_dir@, self.unit.called())
    }

    /// Where the unit goes.
    pub fn unit_path(&self) -> (r: String)
        ensures
            r@ == self.path(),
    {
        text::join_path(self.unit_dir.as_str(), self.unit.file_name())
    }

    /// The unit's text.
    pub open spec fn rendered(self) -> Seq<char> {
        render_lines(
            text::lines(
                match self.unit {
                    Unit::Pastor => PASTOR_UNIT@,
                    Unit::Herdr => HERDR_UNIT@,
                },
            ),
            self.program@,
            self.env@,
        )
    }

    /// What is to be done about the unit's file.
    pub open spec fn plans(self, current: Option<String>, r: WritePlan) -> bool {
        match current {
            Some(old_text) if old_text@ == self.rendered() => r.written is Unchanged && r.text is None,
            Some(_) => r.written matches Written::Updated { backup } && backup@ == self.path()
                + ".bak"@ && text::opt_text(r.text) == Some(self.rendered()),
            None => r.written is Created && text::opt_text(r.text) == Some(self.rendered()),
        }
    }

    /// What is to be done about the unit's file, of which `current` is the text if it
    /// is there. An identical file is left alone, and one that differs is kept as a
    /// backup: it may carry hand edits.
    pub fn write(&self, current: &Option<String>) -> (r: WritePlan)
        ensures
            self.plans(*current, r),
    {
        let text = render(self.unit.template(), self.program.as_str(), &self.env);
        match current {
            Some(old_text) => if text::same_text(old_text.as_str(), text.as_str()) {
                WritePlan { written: Written::Unchanged, text: None }
            } else {
                let mut backup = self.unit_path();
                backup.append(".bak");
                WritePlan { written: Written::Updated { backup }, text: Some(text) }
            },
            None => WritePlan { written: Written::Created, text: Some(text) },
        }
    }
}

/// Installing again leaves an identical unit alone: what one run writes, the next
/// finds up to date.
pub proof fn a_written_unit_is_up_to_date(
    i: Install,
    current: Option<String>,
    first: WritePlan,
    second: WritePlan,
)
    requires
        i.plans(current, first),
        first.text is Some,
        i.plans(first.text, second),
    ensures
        second.written is Unchanged,
        second.text is None,
{
}

// ---------------------------------------------------------------------------
// The user manager

/// Whether a unit outlives a login.
#[derive(Debug, PartialEq, Eq)]
pub enum Linger {
    On,
    Off,
    /// `loginctl` could not say: not installed, no logind, and so on.
    Unknown(String),
}

/// The text without white space at its ends.
pub open spec fn trim(s: Seq<char>) -> Seq<char> {
    text::trim_end(text::trim_start(s, Trim::Space), Trim::Space)
}

/// How a call of systemctl is shown.
pub open spec fn shown_call(args: Seq<Seq<char>>) -> Seq<char> {
    "systemctl "@ + text::joined(seq!["--user"@] + args, " "@)
}

/// What is said of a call of systemctl that failed, when it printed this.
pub open spec fn systemctl_error(args: Seq<Seq<char>>, out: Result<CmdOutput, String>) -> Option<Seq<char>> {
    match out {
        Ok(o) => if o.success {
            None
        } else {
            Some("`"@ + shown_call(args) + "` failed: "@ + trim(o.stderr@))
        },
        Err(why) => Some("run `"@ + shown_call(args) + "`: "@ + why@),
    }
}

fn systemctl_outcome(args: &Vec<String>, out: Result<CmdOutput, String>) -> (r: Result<(), String>)
    requires
        args@.len() > 0,
        args@[0]@ == "--user"@,
    ensures
        match (r, systemctl_error(text::texts(args@).skip(1), out)) {
            (Ok(_), None) => true,
            (Err(e), Some(why)) => e@ == why,
            _ => false,
        },
{
    assert(text::texts(args@) =~= seq!["--user"@] + text::texts(args@).skip(1));
    let mut shown = "systemctl ".to_owned();
    shown.append(text::join(args, " ").as_str());
    match out {
        Ok(o) => if o.success {
            Ok(())
        } else {
            let mut e = "`".to_owned();
            e.append(shown.as_str());
            e.append("` failed: ");
            e.append(text::trimmed(o.stderr.as_str(), Trim::Space).as_str());
            Err(e)
        },
        Err(why) => {
            let mut e = "run `".to_owned();
            e.append(shown.as_str());
            e.append("`: ");
            e.append(why.as_str());
            Err(e)
        },
    }
}

/// The arguments that ask about a user's lingering.
pub open spec fn linger_args(uid: u32) -> Seq<Seq<char>> {
    seq!["show-user"@, digits::decimal(uid as nat), "--property=Linger"@, "--value"@]
}

/// What `loginctl` printed says of lingering.
pub open spec fn linger_result(out: Result<CmdOutput, String>, l: Linger) -> bool {
    match out {
        Ok(o) => if !o.success {
            l matches Linger::Unknown(why) && why@ == "loginctl: "@ + trim(o.stderr@)
        } else if trim(o.stdout@) == "yes"@ {
            l is On
        } else if trim(o.stdout@) == "no"@ {
            l is Off
        } else {
            l matches Linger::Unknown(why) && why@ == "loginctl said "@ + text::debug_text(
                trim(o.stdout@),
            )
        },
        Err(e) => l matches Linger::Unknown(why) && why@ == "loginctl: "@ + e@,
    }
}

fn linger(out: Result<CmdOutput, String>) -> (l: Linger)
    ensures
        linger_result(out, l),
{
    match out {
        Ok(o) => if !o.success {
            let mut why = "loginctl: ".to_owned();
            why.append(text::trimmed(o.stderr.as_str(), Trim::Space).as_str());
            Linger::Unknown(why)
        } else {
            let said = text::trimmed(o.stdout.as_str(), Trim::Space);
            if text::same_text(said.as_str(), "yes") {
                Linger::On
            } else if text::same_text(said.as_str(), "no") {
                Linger::Off
            } else {
                let mut why = "loginctl said ".to_owned();
                why.append(text::debug_quoted(said.as_str()).as_str());
                Linger::Unknown(why)
            }
        },
        Err(e) => {
            let mut why = "loginctl: ".to_owned();
            why.append(e.as_str());
            Linger::Unknown(why)
        },
    }
}

/// Read the unit files again.
pub open spec fn reload_args() -> Seq<Seq<char>> {
    seq!["daemon-reload"@]
}

/// Enable and start the unit.
pub open spec fn enable_args(unit: Unit) -> Seq<Seq<char>> {
    seq!["enable"@, "--now"@, unit.called()]
}

/// What `setup systemd` did.
#[derive(Debug)]
pub struct Report {
    pub unit: Unit,
    pub unit_path: String,
    pub written: Written,
    /// One line per permission pastor tightened.
    pub fixed: Vec<String>,
    pub linger: Linger,
}

/// A program to run.
#[derive(Debug)]
pub struct Call {
    pub program: String,
    pub args: Vec<String>,
}

/// What a call says: the program, and its arguments.
pub type CallView = (Seq<char>, Seq<Seq<char>>);

impl Call {
    /// What it says.
    pub open spec fn view(&self) -> CallView {
        (self.program@, text::texts(self.args@))
    }
}

/// `systemctl` for the user's own units.
pub open spec fn systemctl_call(args: Seq<Seq<char>>) -> CallView {
    ("systemctl"@, seq!["--user"@] + args)
}

/// `loginctl` about the user's lingering.
pub open spec fn linger_call(uid: u32) -> CallView {
    ("loginctl"@, linger_args(uid))
}

/// What a setup waits for.
#[derive(Debug, Clone, Copy, PartialEq, Eq, Structural)]
pub enum SetupStage {
    /// The unit files to be read again.
    Reload,
    /// The unit to be enabled and started.
    Enable,
    /// What is known of lingering.
    Linger,
}

/// A setup whose unit was written, waiting for a program.
#[derive(Debug)]
pub struct Setup {
    pub unit: Unit,
    pub unit_path: String,
    pub written: Written,
    /// One line per permission pastor tightened.
    pub fixed: Vec<String>,
    /// The user this runs as.
    pub uid: Result<u32, String>,
    pub stage: SetupStage,
}

/// What comes next: a program to run, or the end.
#[derive(Debug)]
pub enum SetupNext {
    Run(Setup, Call),
    End(Result<Report, String>),
}

fn systemctl(first: &str, second: Option<&str>, third: Option<&str>) -> (r: Call)
    ensures
        r@ == systemctl_call(
            seq![first@] + (match second {
                Some(s) => seq![s@],
                None => seq![],
            }) + (match third {
                Some(s) => seq![s@],
                None => seq![],
            }),
        ),
{
    let mut args: Vec<String> = Vec::new();
    args.push("--user".to_owned());
    args.push(first.to_owned());
    if let Some(s) = second {
        args.push(s.to_owned());
    }
    if let Some(s) = third {
        args.push(s.to_owned());
    }
    let r = Call { program: "systemctl".to_owned(), args };
    assert(r@.1 =~= seq!["--user"@] + (seq![first@] + (match second {
        Some(s) => seq![s@],
        None => seq![],
    }) + (match third {
        Some(s) => seq![s@],
        None => seq![],
    })));
    r
}

impl Setup {
    /// The report of a setup that found lingering to be this.
    pub open spec fn reports(self, l: Linger, rep: Report) -> bool {
        &&& rep.unit == self.unit
        &&& rep.unit_path == self.unit_path
        &&& rep.written == self.written
        &&& rep.fixed == self.fixed
        &&& rep.linger == l
    }

    /// The setup goes on at another stage, with this program.
    pub open spec fn runs(self, stage: SetupStage, call: CallView, r: SetupNext) -> bool {
        r matches SetupNext::Run(next, c) && next == (Setup { stage, ..self }) && c@ == call
    }

    /// The setup ends with a failure of systemctl.
    pub open spec fn fails(self, args: Seq<Seq<char>>, out: Result<CmdOutput, String>, r: SetupNext) -> bool {
        r matches SetupNext::End(Err(e)) && Some(e@) == systemctl_error(args, out)
    }

    /// What comes after the program that was run, when it printed this.
    pub open spec fn after(self, out: Result<CmdOutput, String>, r: SetupNext) -> bool {
        let ok = out matches Ok(o) && o.success;
        match self.stage {
            SetupStage::Reload => if ok {
                self.runs(SetupStage::Enable, systemctl_call(enable_args(self.unit)), r)
            } else {
                self.fails(reload_args(), out, r)
            },
            SetupStage::Enable => if ok {
                match self.uid {
                    Ok(uid) => self.runs(SetupStage::Linger, linger_call(uid), r),
                    Err(e) => r matches SetupNext::End(Ok(rep)) && self.reports(
                        Linger::Unknown(e),
                        rep,
                    ),
                }
            } else {
                self.fails(enable_args(self.unit), out, r)
            },
            SetupStage::Linger => r matches SetupNext::End(Ok(rep)) && linger_result(
                out,
                rep.linger,
            ) && self.reports(rep.linger, rep),
        }
    }

    fn report(self, linger: Linger) -> (r: SetupNext)
        ensures
            r matches SetupNext::End(Ok(rep)) && self.reports(linger, rep),
    {
        SetupNext::End(
            Ok(
                Report {
                    unit: self.unit,
                    unit_path: self.unit_path,
                    written: self.written,
                    fixed: self.fixed,
                    linger,
                },
            ),
        )
    }

    /// Take what the program printed, or why it could not be run, and say what comes
    /// next. Fails only on a `systemctl` error; a lingering check that cannot run is
    /// reported, not fatal.
    pub fn step(self, out: Result<CmdOutput, String>) -> (r: SetupNext)
        ensures
            self.after(out, r),
    {
        match self.stage {
            SetupStage::Reload => {
                let call = systemctl("daemon-reload", None, None);
                assert(call@.1.skip(1) =~= reload_args());
                assert(call@.1[0] == call.args@[0]@);
                let done = systemctl_outcome(&call.args, out);
                if let Err(e) = done {
                    return SetupNext::End(Err(e));
                }
                let call = systemctl("enable", Some("--now"), Some(self.unit.file_name()));
                assert(call@.1 =~= seq!["--user"@] + enable_args(self.unit));
                SetupNext::Run(Setup { stage: SetupStage::Enable, ..self }, call)
            },
            SetupStage::Enable => {
                let call = systemctl("enable", Some("--now"), Some(self.unit.file_name()));
                assert(call@.1.skip(1) =~= enable_args(self.unit));
                assert(call@.1[0] == call.args@[0]@);
                let done = systemctl_outcome(&call.args, out);
                if let Err(e) = done {
                    return SetupNext::End(Err(e));
                }
                match &self.uid {
                    Err(e) => {
                        let why = e.clone();
                        self.report(Linger::Unknown(why))
                    },
                    Ok(u) => {
                        let uid: u32 = *u;
                        let mut args: Vec<String> = Vec::new();
                        args.push("show-user".to_owned());
                        args.push(digits::print_number(uid as u64));
                        args.push("--property=Linger".to_owned());
                        args.push("--value".to_owned());
                        assert(text::texts(args@) =~= linger_args(uid));
                        let call = Call { program: "loginctl".to_owned(), args };
                        SetupNext::Run(Setup { stage: SetupStage::Linger, ..self }, call)
                    },
                }
            },
            SetupStage::Linger => {
                let found = linger(out);
                self.report(found)
            },
        }
    }
}

impl Install {
    /// Enable and start the unit that was written, then check lingering. `fixed` says
    /// which permissions were tightened before, and `uid` is the user this runs as.
    pub fn run(&self, fixed: Vec<String>, written: Written, uid: Result<u32, String>) -> (r:
        SetupNext)
        ensures
            r matches SetupNext::Run(s, call) && call@ == systemctl_call(reload_args()) && s.stage
                == SetupStage::Reload && s.unit == self.unit && s.unit_path@ == self.path()
                && s.written == written && s.fixed == fixed && s.uid == uid,
    {
        let call = systemctl("daemon-reload", None, None);
        assert(call@.1 =~= seq!["--user"@] + reload_args());
        SetupNext::Run(
            Setup {
                unit: self.unit,
                unit_path: self.unit_path(),
                written,
                fixed,
                uid,
                stage: SetupStage::Reload,
            },
            call,
        )
    }
}

/// The programs a setup runs, in order, when they print these: each is run once, and none
/// after a failure of systemctl.
pub open spec fn setup_calls(unit: Unit, uid: Result<u32, String>, outs: Seq<Result<CmdOutput, String>>) -> Seq<
    CallView,
> {
    let ok = |i: int| i < outs.len() && (outs[i] matches Ok(o) && o.success);
    seq![systemctl_call(reload_args())] + (if ok(0) {
        seq![systemctl_call(enable_args(unit))]
    } else {
        seq![]
    }) + (if ok(0) && ok(1) && uid is Ok {
        seq![linger_call(uid->Ok_0)]
    } else {
        seq![]
    })
}

/// Each step of the setup follows from the one before: `nexts` begins with what `run`
/// gave, and goes on with what each output led to.
pub open spec fn setup_steps(nexts: Seq<SetupNext>, outs: Seq<Result<CmdOutput, String>>) -> bool {
    &&& nexts.len() == outs.len() + 1
    &&& forall|i: int|
        0 <= i < outs.len() ==> (#[trigger] nexts[i]) is Run && nexts[i]->Run_0.after(
            outs[i],
            nexts[i + 1],
        )
}

/// The programs asked for on the way.
pub open spec fn calls_of(nexts: Seq<SetupNext>) -> Seq<CallView>
    decreases nexts.len(),
{
    if nexts.len() == 0 {
        seq![]
    } else {
        match nexts.last() {
            SetupNext::Run(_, call) => calls_of(nexts.drop_last()).push(call@),
            SetupNext::End(_) => calls_of(nexts.drop_last()),
        }
    }
}

/// A setup runs `daemon-reload`, then `enable --now`, then `loginctl`, each once and in
/// this order; a systemctl that fails is the last it runs, and without a uid lingering is
/// not asked about.
pub proof fn a_setup_runs_its_programs_in_order(
    nexts: Seq<SetupNext>,
    outs: Seq<Result<CmdOutput, String>>,
)
    requires
        setup_steps(nexts, outs),
        nexts[0] matches SetupNext::Run(s, call) && s.stage == SetupStage::Reload && call@
            == systemctl_call(reload_args()),
    ensures
        outs.len() <= 3,
        calls_of(nexts) == setup_calls(nexts[0]->Run_0.unit, nexts[0]->Run_0.uid, outs),
        outs.len() == 3 ==> nexts[3] is End,
{
    reveal_with_fuel(calls_of, 5);
    let s = nexts[0]->Run_0;
    let n = outs.len() as int;
    if n > 0 {
        assert(s.after(outs[0], nexts[1]));
    }
    if n > 1 {
        assert(nexts[1] is Run && nexts[1]->Run_0.after(outs[1], nexts[2]));
    }
    if n > 2 {
        assert(nexts[2] is Run && nexts[2]->Run_0.after(outs[2], nexts[3]));
    }
    if n > 3 {
        assert(nexts[3] is Run);
    }
    let want = setup_calls(s.unit, s.uid, outs);
    let p1 = nexts.take(1);
    assert(p1.drop_last() =~= seq![]);
    assert(calls_of(p1) =~= seq![systemctl_call(reload_args())]);
    if n == 0 {
        assert(nexts =~= p1);
        assert(calls_of(nexts) =~= want);
    } else {
        let p2 = nexts.take(2);
        assert(p2.drop_last() =~= p1);
        if n == 1 {
            assert(nexts =~= p2);
            assert(calls_of(nexts) =~= want);
        } else {
            let p3 = nexts.take(3);
            assert(p3.drop_last() =~= p2);
            if n == 2 {
                assert(nexts =~= p3);
                assert(calls_of(nexts) =~= want);
            } else {
                let p4 = nexts.take(4);
                assert(p4.drop_last() =~= p3);
                assert(nexts =~= p4);
                assert(calls_of(nexts) =~= want);
            }
        }
    }
}

// ---------------------------------------------------------------------------
// The report

/// The lines, each with its line break.
pub open spec fn lines_text(lines: Seq<String>) -> Seq<char>
    decreases lines.len(),
{
    if lines.len() == 0 {
        seq![]
    } else {
        lines_text(lines.drop_last()) + lines.last()@ + "\n"@
    }
}

impl Report {
    /// What is said of the unit's file.
    pub open spec fn written_text(self) -> Seq<char> {
        let name = self.unit.called();
        match self.written {
            Written::Created => "wrote "@ + self.unit_path@ + "\n"@,
            Written::Unchanged => self.unit_path@ + " is up to date\n"@,
            Written::Updated { backup } => "updated "@ + self.unit_path@
                + " (previous version kept as "@ + backup@ + ")\n"@ + "a running "@ + name
                + " keeps the old unit until `systemctl --user restart "@ + name + "`\n"@,
        }
    }

    /// What is said of lingering.
    pub open spec fn linger_text(self) -> Seq<char> {
        let name = self.unit.called();
        match self.linger {
            Linger::On => "lingering is on: "@ + name + " runs without a login session\n"@,
            Linger::Off => "lingering is off, so "@ + name
                + " stops when you log out; turn it on with:\n  loginctl enable-linger\n"@,
            Linger::Unknown(why) => "could not check lingering ("@ + why@ + "); "@ + name
                + " needs `loginctl enable-linger` to run without a login\n"@,
        }
    }

    /// What is shown of the run.
    pub open spec fn text(self) -> Seq<char> {
        lines_text(self.fixed@) + self.written_text() + "enabled and started "@ + self.unit.called()
            + "\n"@ + self.linger_text()
    }

    fn say_written(&self) -> (s: String)
        ensures
            s@ == self.written_text(),
    {
        let name = self.unit.file_name();
        match &self.written {
            Written::Created => {
                let mut s = "wrote ".to_owned();
                s.append(self.unit_path.as_str());
                s.append("\n");
                s
            },
            Written::Unchanged => {
                let mut s = self.unit_path.clone();
                s.append(" is up to date\n");
                s
            },
            Written::Updated { backup } => {
                let mut s = "updated ".to_owned();
                s.append(self.unit_path.as_str());
                s.append(" (previous version kept as ");
                s.append(backup.as_str());
                s.append(")\n");
                s.append("a running ");
                s.append(name);
                s.append(" keeps the old unit until `systemctl --user restart ");
                s.append(name);
                s.append("`\n");
                s
            },
        }
    }

    fn say_linger(&self) -> (s: String)
        ensures
            s@ == self.linger_text(),
    {
        let name = self.unit.file_name();
        match &self.linger {
            Linger::On => {
                let mut s = "lingering is on: ".to_owned();
                s.append(name);
                s.append(" runs without a login session\n");
                s
            },
            Linger::Off => {
                let mut s = "lingering is off, so ".to_owned();
                s.append(name);
                s.append(" stops when you log out; turn it on with:\n  loginctl enable-linger\n");
                s
            },
            Linger::Unknown(why) => {
                let mut s = "could not check lingering (".to_owned();
                s.append(why.as_str());
                s.append("); ");
                s.append(name);
                s.append(" needs `loginctl enable-linger` to run without a login\n");
                s
            },
        }
    }

    /// What is shown of the run.
    pub fn describe(&self) -> (r: String)
        ensures
            r@ == self.text(),
    {
        let mut out = String::new();
        let mut i: usize = 0;
        assert(out@ =~= lines_text(self.fixed@.take(0)));
        while i < self.fixed.len()
            invariant
                i <= self.fixed@.len(),
                out@ == lines_text(self.fixed@.take(i as int)),
            decreases self.fixed@.len() - i,
        {
            proof {
                assert(self.fixed@.take(i + 1).drop_last() =~= self.fixed@.take(i as int));
                assert(self.fixed@.take(i + 1).last() == self.fixed@[i as int]);
            }
            out.append(self.fixed[i].as_str());
            out.append("\n");
            i = i + 1;
        }
        assert(self.fixed@.take(i as int) =~= self.fixed@);
        out.append(self.say_written().as_str());
        out.append("enabled and started ");
        out.append(self.unit.file_name());
        out.append("\n");
        out.append(self.say_linger().as_str());
        out
    }
}

// ---------------------------------------------------------------------------
// The modes of pastor's files

/// A mode in four octal digits.
pub open spec fn mode_text(mode: u32) -> Seq<char> {
    seq![
        '0',
        digits::digit_char(mode as nat / 64 % 8),
        digits::digit_char(mode as nat / 8 % 8),
        digits::digit_char(mode as nat % 8),
    ]
}

fn octal_digit(n: u32) -> (c: char)
    requires
        n < 8,
    ensures
        c == digits::digit_char(n as nat),
{
    match n {
        0 => '0',
        1 => '1',
        2 => '2',
        3 => '3',
        4 => '4',
        5 => '5',
        6 => '6',
        _ => '7',
    }
}

fn print_mode(mode: u32) -> (s: String)
    ensures
        s@ == mode_text(mode),
{
    let mut s = String::new();
    s.push('0');
    s.push(octal_digit(mode / 64 % 8));
    s.push(octal_digit(mode / 8 % 8));
    s.push(octal_digit(mode % 8));
    assert(s@ =~= mode_text(mode));
    s
}

/// What is said of a directory of pastor's that was made private; nothing if it was
/// so before. `before` is its mode, if it was there.
pub open spec fn dir_said(dir: Seq<char>, before: Option<u32>) -> Option<Seq<char>> {
    match before {
        None => Some("created "@ + dir + " (0700)"@),
        Some(m) => if m == 0o700 {
            None
        } else {
            Some(dir + ": "@ + mode_text(m) + " -> 0700"@)
        },
    }
}

/// What is said of a directory of pastor's that was made private; nothing if it was
/// so before. `before` is its mode, if it was there.
pub fn secured_dir(dir: &str, before: Option<u32>) -> (r: Option<String>)
    ensures
        text::opt_text(r) == dir_said(dir@, before),
{
    match before {
        None => {
            let mut s = "created ".to_owned();
            s.append(dir);
            s.append(" (0700)");
            Some(s)
        },
        Some(m) => if m == 0o700 {
            None
        } else {
            let mut s = dir.to_owned();
            s.append(": ");
            s.append(print_mode(m).as_str());
            s.append(" -> 0700");
            Some(s)
        },
    }
}

/// What is said of a file of pastor's that is given the mode 0600; nothing if it has it
/// or is left alone. Symlinks are: a change of mode would follow them to a file pastor
/// does not own.
pub open spec fn file_said(file: Seq<char>, mode: u32, symlink: bool) -> Option<Seq<char>> {
    if symlink || mode == 0o600 {
        None
    } else {
        Some(file + ": "@ + mode_text(mode) + " -> 0600"@)
    }
}

/// What is said of a file of pastor's that is given the mode 0600; nothing if it has it
/// or is left alone. Symlinks are: a change of mode would follow them to a file pastor
/// does not own.
pub fn secured_file(file: &str, mode: u32, symlink: bool) -> (r: Option<String>)
    ensures
        text::opt_text(r) == file_said(file@, mode, symlink),
{
    if symlink || mode == 0o600 {
        return None;
    }
    let mut s = file.to_owned();
    s.append(": ");
    s.append(print_mode(mode).as_str());
    s.append(" -> 0600");
    Some(s)
}

/// A directory of pastor's as it was found, with its mode if it was there.
#[derive(Debug)]
pub struct SeenDir {
    pub path: String,
    pub mode: Option<u32>,
}

/// A file of pastor's as it was found.
#[derive(Debug)]
pub struct SeenFile {
    pub path: String,
    pub mode: u32,
    pub symlink: bool,
}

/// A plugin's `.env` as it was found, under the plugin's name.
#[derive(Debug)]
pub struct SeenEnv {
    pub plugin: String,
    pub file: SeenFile,
}

/// What bringing pastor's files to their modes takes.
#[derive(Debug)]
pub struct Secured {
    /// The files to be given the mode 0600, in order.
    pub change: Vec<String>,
    /// One line per change.
    pub said: Vec<String>,
}

/// What is said of the directories, in order.
pub open spec fn dirs_said(dirs: Seq<SeenDir>) -> Seq<Seq<char>>
    decreases dirs.len(),
{
    if dirs.len() == 0 {
        seq![]
    } else {
        match dir_said(dirs.last().path@, dirs.last().mode) {
            Some(line) => dirs_said(dirs.drop_last()).push(line),
            None => dirs_said(dirs.drop_last()),
        }
    }
}

/// What is said of the files, in order.
pub open spec fn files_said(files: Seq<SeenFile>) -> Seq<Seq<char>>
    decreases files.len(),
{
    if files.len() == 0 {
        seq![]
    } else {
        match file_said(files.last().path@, files.last().mode, files.last().symlink) {
            Some(line) => files_said(files.drop_last()).push(line),
            None => files_said(files.drop_last()),
        }
    }
}

/// The files whose mode is to be changed, in order.
pub open spec fn to_change(files: Seq<SeenFile>) -> Seq<Seq<char>>
    decreases files.len(),
{
    if files.len() == 0 {
        seq![]
    } else if file_said(files.last().path@, files.last().mode, files.last().symlink) is Some {
        to_change(files.drop_last()).push(files.last().path@)
    } else {
        to_change(files.drop_last())
    }
}

/// The names of the plugins, in order.
pub open spec fn env_plugins(envs: Seq<SeenEnv>) -> Seq<Seq<char>> {
    Seq::new(envs.len(), |i: int| envs[i].plugin@)
}

/// The files in the order in which they are looked at: the socket, then each `.env`.
pub open spec fn files_of(socket: Option<SeenFile>, envs: Seq<SeenEnv>) -> Seq<SeenFile> {
    (match socket {
        Some(f) => seq![f],
        None => seq![],
    }) + Seq::new(envs.len(), |i: int| envs[i].file)
}

/// `sorted` are the files in the order of the plugins' names.
pub open spec fn envs_in_order(envs: Seq<SeenEnv>, sorted: Seq<SeenEnv>) -> bool {
    text::sorted(env_plugins(sorted)) && sorted.to_multiset() == envs.to_multiset()
}

impl Secured {
    /// What bringing these directories and files to their modes takes.
    pub open spec fn follows(
        self,
        dirs: Seq<SeenDir>,
        socket: Option<SeenFile>,
        envs: Seq<SeenEnv>,
    ) -> bool {
        exists|sorted: Seq<SeenEnv>| #[trigger]
            envs_in_order(envs, sorted) && text::texts(self.said@) == dirs_said(dirs) + files_said(
                files_of(socket, sorted),
            ) && text::texts(self.change@) == to_change(files_of(socket, sorted))
    }
}

fn sort_envs(envs: Vec<SeenEnv>) -> (r: Vec<SeenEnv>)
    ensures
        envs_in_order(envs@, r@),
{
    broadcast use {vstd::multiset::group_multiset_axioms, vstd::seq_lib::group_to_multiset_ensures};

    let ghost all = envs@;
    let mut rest = envs;
    let mut out: Vec<SeenEnv> = Vec::new();
    proof {
        assert(out@.to_multiset().add(rest@.to_multiset()) =~= all.to_multiset());
    }
    while rest.len() > 0
        invariant
            text::sorted(env_plugins(out@)),
            out@.to_multiset().add(rest@.to_multiset()) == all.to_multiset(),
        decreases rest@.len(),
    {
        let ghost before_rest = rest@;
        let ghost before_out = out@;
        let e = match rest.pop() {
            Some(e) => e,
            None => vstd::pervasive::unreached(),
        };
        let mut i: usize = 0;
        while i < out.len() && !text::comes_before(e.plugin.as_str(), out[i].plugin.as_str())
            invariant
                i <= out@.len(),
                forall|k: int|
                    0 <= k < i ==> !text::before(e.plugin@, #[trigger] env_plugins(out@)[k]),
            decreases out@.len() - i,
        {
            assert(env_plugins(out@)[i as int] == out@[i as int].plugin@);
            i = i + 1;
        }
        proof {
            text::lemma_sorted_after_insert(env_plugins(out@), i as int, e.plugin@);
            assert(env_plugins(out@.insert(i as int, e)) =~= env_plugins(out@).insert(
                i as int,
                e.plugin@,
            ));
            text::lemma_insert_adds_one(out@, i as int, e);
        }
        out.insert(i, e);
        proof {
            assert(out@ == before_out.insert(i as int, e));
            text::lemma_insert_adds_one(rest@, rest@.len() as int, e);
            assert(before_rest =~= rest@.insert(rest@.len() as int, e));
            assert(out@.to_multiset().add(rest@.to_multiset()) =~= before_out.to_multiset().add(
                before_rest.to_multiset(),
            ));
        }
    }
    proof {
        assert(rest@ =~= seq![]);
        assert(out@.to_multiset().add(rest@.to_multiset()) =~= out@.to_multiset());
    }
    out
}

fn secure_dirs(dirs: &Vec<SeenDir>) -> (r: Vec<String>)
    ensures
        text::texts(r@) == dirs_said(dirs@),
{
    let mut said: Vec<String> = Vec::new();
    let mut i: usize = 0;
    assert(text::texts(said@) =~= seq![]);
    while i < dirs.len()
        invariant
            i <= dirs@.len(),
            text::texts(said@) == dirs_said(dirs@.take(i as int)),
        decreases dirs@.len() - i,
    {
        proof {
            assert(dirs@.take(i + 1).drop_last() =~= dirs@.take(i as int));
            assert(dirs@.take(i + 1).last() == dirs@[i as int]);
        }
        if let Some(line) = secured_dir(dirs[i].path.as_str(), dirs[i].mode) {
            let ghost before = said@;
            said.push(line);
            assert(text::texts(said@) =~= text::texts(before).push(line@));
        }
        i = i + 1;
    }
    assert(dirs@.take(i as int) =~= dirs@);
    said
}

impl Secured {
    /// Take the next file into account.
    fn look_at(
        &mut self,
        f: &SeenFile,
        Ghost(dirs): Ghost<Seq<SeenDir>>,
        Ghost(files): Ghost<Seq<SeenFile>>,
    )
        requires
            text::texts(old(self).said@) == dirs_said(dirs) + files_said(files),
            text::texts(old(self).change@) == to_change(files),
        ensures
            text::texts(final(self).said@) == dirs_said(dirs) + files_said(files.push(*f)),
            text::texts(final(self).change@) == to_change(files.push(*f)),
    {
        assert(files.push(*f).drop_last() =~= files);
        if let Some(line) = secured_file(f.path.as_str(), f.mode, f.symlink) {
            let ghost said = self.said@;
            let ghost change = self.change@;
            self.said.push(line);
            self.change.push(f.path.clone());
            assert(text::texts(self.said@) =~= text::texts(said).push(line@));
            assert(text::texts(self.change@) =~= text::texts(change).push(f.path@));
            assert(dirs_said(dirs) + files_said(files).push(line@) =~= (dirs_said(dirs)
                + files_said(files)).push(line@));
        }
    }
}

/// What it takes to bring pastor's files to their modes: config and state dirs 0700
/// (created if missing), the daemon socket and every plugin `.env` 0600, in the order of
/// the plugins. One line per change.
pub fn secure(dirs: &Vec<SeenDir>, socket: &Option<SeenFile>, envs: Vec<SeenEnv>) -> (r: Secured)
    ensures
        r.follows(dirs@, *socket, envs@),
{
    let sorted = sort_envs(envs);
    let mut r = Secured { change: Vec::new(), said: secure_dirs(dirs) };
    let ghost mut files: Seq<SeenFile> = seq![];
    proof {
        assert(text::texts(r.change@) =~= to_change(files));
        assert(text::texts(r.said@) =~= dirs_said(dirs@) + files_said(files));
    }
    if let Some(f) = socket {
        r.look_at(f, Ghost(dirs@), Ghost(files));
        proof {
            files = files.push(*f);
        }
    }
    let mut i: usize = 0;
    assert(files =~= files_of(*socket, sorted@.take(0)));
    while i < sorted.len()
        invariant
            i <= sorted@.len(),
            files == files_of(*socket, sorted@.take(i as int)),
            text::texts(r.said@) == dirs_said(dirs@) + files_said(files),
            text::texts(r.change@) == to_change(files),
        decreases sorted@.len() - i,
    {
        r.look_at(&sorted[i].file, Ghost(dirs@), Ghost(files));
        proof {
            files = files.push(sorted@[i as int].file);
            assert(files =~= files_of(*socket, sorted@.take(i + 1)));
        }
        i = i + 1;
    }
    proof {
        assert(sorted@.take(i as int) =~= sorted@);
        assert(envs_in_order(envs@, sorted@));
    }
    r
}

/// Everything has its mode, or is a symlink.
pub open spec fn all_private(
    dirs: Seq<SeenDir>,
    socket: Option<SeenFile>,
    envs: Seq<SeenEnv>,
) -> bool {
    &&& forall|i: int| 0 <= i < dirs.len() ==> (#[trigger] dirs[i]).mode == Some(0o700u32)
    &&& socket matches Some(f) ==> f.symlink || f.mode == 0o600
    &&& forall|i: int|
        0 <= i < envs.len() ==> (#[trigger] envs[i]).file.symlink || envs[i].file.mode == 0o600
}

/// A second run, with everything at its mode, changes nothing and says nothing.
pub proof fn what_is_private_is_left_alone(
    r: Secured,
    dirs: Seq<SeenDir>,
    socket: Option<SeenFile>,
    envs: Seq<SeenEnv>,
)
    requires
        r.follows(dirs, socket, envs),
        all_private(dirs, socket, envs),
    ensures
        r.change@.len() == 0,
        r.said@.len() == 0,
{
    let sorted = choose|sorted: Seq<SeenEnv>| #[trigger]
        envs_in_order(envs, sorted) && text::texts(r.said@) == dirs_said(dirs) + files_said(
            files_of(socket, sorted),
        ) && text::texts(r.change@) == to_change(files_of(socket, sorted));
    let files = files_of(socket, sorted);
    assert forall|i: int| 0 <= i < files.len() implies (#[trigger] files[i]).symlink
        || files[i].mode == 0o600 by {
        if i >= files.len() - sorted.len() {
            let e = sorted[i - (files.len() - sorted.len())];
            vstd::seq_lib::to_multiset_contains(sorted, e);
            vstd::seq_lib::to_multiset_contains(envs, e);
            assert(sorted.contains(e));
            assert(envs.contains(e));
            assert(files[i] == e.file);
        }
    }
    lemma_no_dirs_said(dirs);
    lemma_no_files_said(files);
    assert(text::texts(r.said@).len() == r.said@.len());
    assert(text::texts(r.change@).len() == r.change@.len());
}

proof fn lemma_no_dirs_said(dirs: Seq<SeenDir>)
    requires
        forall|i: int| 0 <= i < dirs.len() ==> (#[trigger] dirs[i]).mode == Some(0o700u32),
    ensures
        dirs_said(dirs).len() == 0,
    decreases dirs.len(),
{
    if dirs.len() > 0 {
        assert(dirs[dirs.len() - 1].mode == Some(0o700u32));
        lemma_no_dirs_said(dirs.drop_last());
    }
}

proof fn lemma_no_files_said(files: Seq<SeenFile>)
    requires
        forall|i: int|
            0 <= i < files.len() ==> (#[trigger] files[i]).symlink || files[i].mode == 0o600,
    ensures
        files_said(files).len() == 0,
        to_change(files).len() == 0,
    decreases files.len(),
{
    if files.len() > 0 {
        assert(files[files.len() - 1].symlink || files[files.len() - 1].mode == 0o600);
        lemma_no_files_said(files.drop_last());
    }
}

/// A unit's file is written exactly if it is not there or says something else; what it
/// said is then kept under its name with `.bak` at the end.
pub proof fn a_unit_is_written_when_it_differs(
    i: Install,
    current: Option<String>,
    r: WritePlan,
    path: String,
)
    requires
        call_ensures(Install::write, (&i, &current), r),
        call_ensures(Install::unit_path, (&i,), path),
    ensures
        current is None <==> r.written is Created,
        r.written is Unchanged <==> r.text is None,
        r.text is None ==> current is Some,
        r.written matches Written::Updated { backup } ==> backup@ == path@ + ".bak"@ && (
        r.text matches Some(t) && t@ != current->0@),
        i.unit_dir@.len() > 0 && i.unit_dir@.last() != '/' ==> path@ == i.unit_dir@ + seq!['/'] + (
        if i.unit is Pastor {
            "pastor.service"@
        } else {
            "herdr.service"@
        }),
{
    reveal_strlit("/");
    reveal_strlit("pastor.service");
    reveal_strlit("herdr.service");
    assert("/"@ =~= seq!['/']);
}

/// A line that starts no program is kept as it stands.
pub proof fn other_lines_of_a_unit_are_kept(line: Seq<char>, program: Seq<char>, env: Seq<(String, String)>)
    requires
        !text::occurs_at(line, "ExecStart="@, 0),
    ensures
        render_line(line, program, env) == line.push('\n'),
{
    reveal_strlit("\n");
    assert(line + "\n"@ =~= line.push('\n'));
}

/// The line that starts the program starts this one, with the arguments it had, and the
/// environment follows it, one line for each variable.
pub proof fn the_unit_starts_this_program(
    word: Seq<char>,
    args: Seq<char>,
    program: Seq<char>,
    name: String,
    value: String,
)
    requires
        !word.contains(' '),
    ensures
        render_line("ExecStart="@ + word + seq![' '] + args, program, seq![(name, value)])
            == "ExecStart="@ + quoting::unit_word(program) + " "@ + args + "\n"@ + "Environment="@
            + quoting::unit_word(name@ + "="@ + value@) + "\n"@,
{
    let start = "ExecStart="@;
    let line = start + word + seq![' '] + args;
    let rest = line.skip(start.len() as int);
    assert(rest =~= word + seq![' '] + args);
    assert(line.subrange(0, start.len() as int) =~= start);
    assert(text::occurs_at(line, start, 0));
    text::lemma_first_of(rest, ' ');
    let n = text::first_of(rest, ' ');
    assert(rest[word.len() as int] == ' ');
    assert(rest.contains(' '));
    assert(n == word.len()) by {
        if n < word.len() {
            assert(word[n] == rest[n]);
            assert(word.contains(' '));
        }
    }
    assert(rest.skip(n + 1) =~= args);
    let env = seq![(name, value)];
    assert(env.drop_last() =~= Seq::<(String, String)>::empty());
    assert(environment(env.drop_last()) =~= Seq::<char>::empty());
    assert(environment(env) =~= "Environment="@ + quoting::unit_word(name@ + "="@ + value@) + "\n"@);
    assert(render_line(line, program, env) =~= start + quoting::unit_word(program) + " "@ + args
        + "\n"@ + "Environment="@ + quoting::unit_word(name@ + "="@ + value@) + "\n"@);
}

/// A call of systemctl that fails ends the setup with an error; a lingering check that
/// fails does not, and is told.
pub proof fn only_systemctl_fails_a_setup(s: Setup, out: Result<CmdOutput, String>, r: SetupNext)
    requires
        call_ensures(Setup::step, (s, out), r),
    ensures
        ({
            let ok = out matches Ok(o) && o.success;
            &&& (s.stage is Reload || s.stage is Enable) && !ok ==> (r matches SetupNext::End(e)
                && e is Err)
            &&& s.stage is Reload && ok ==> (r matches SetupNext::Run(then, call)
                && then.stage is Enable && call@.0 == "systemctl"@ && call@.1[0] == "--user"@
                && call@.1[1] == "enable"@ && call@.1[2] == "--now"@ && call@.1.len() == 4)
            &&& s.stage is Enable && ok && s.uid is Ok ==> (r matches SetupNext::Run(then, call)
                && then.stage is Linger && call@.0 == "loginctl"@)
            &&& s.stage is Enable && ok && (s.uid matches Err(_)) ==> (r matches SetupNext::End(Ok(rep))
                && rep.linger is Unknown)
            &&& s.stage is Linger ==> (r matches SetupNext::End(Ok(rep)) && (rep.linger is On
                ==> ok) && rep.unit == s.unit && rep.written == s.written && rep.fixed == s.fixed)
            &&& s.stage is Linger && !ok ==> r->End_0->Ok_0.linger is Unknown
        }),
{
}

/// What is private: a directory at 0700, a file at 0600. A directory is told of unless it
/// is so, and a file unless it is so or is a link.
pub proof fn what_is_told_of_a_mode(
    dir: &str,
    before: Option<u32>,
    d: Option<String>,
    file: &str,
    mode: u32,
    symlink: bool,
    f: Option<String>,
)
    requires
        call_ensures(secured_dir, (dir, before), d),
        call_ensures(secured_file, (file, mode, symlink), f),
    ensures
        d is None <==> before == Some(448u32),
        f is None <==> symlink || mode == 384,
{
}

/// A file is changed exactly if it is no link and not at 0600: the socket and every
/// `.env`, each by its own path.
pub proof fn every_open_file_is_closed(files: Seq<SeenFile>, k: int)
    requires
        0 <= k < files.len(),
        !files[k].symlink,
        files[k].mode != 384,
    ensures
        to_change(files).contains(files[k].path@),
    decreases files.len(),
{
    let all = to_change(files);
    if k < files.len() - 1 {
        let rest = files.drop_last();
        assert(rest[k] == files[k]);
        every_open_file_is_closed(rest, k);
        let i = choose|i: int| 0 <= i < to_change(rest).len() && to_change(rest)[i] == files[k].path@;
        assert(all[i] == files[k].path@);
    } else {
        assert(all[all.len() - 1] == files[k].path@);
    }
}

/// No other file is changed: not one at its mode, and no link.
pub proof fn only_open_files_are_changed(files: Seq<SeenFile>, i: int)
    requires
        0 <= i < to_change(files).len(),
    ensures
        exists|k: int|
            0 <= k < files.len() && (#[trigger] files[k]).path@ == to_change(files)[i]
                && !files[k].symlink && files[k].mode != 384,
    decreases files.len(),
{
    let rest = files.drop_last();
    let first = to_change(rest);
    if i < first.len() {
        only_open_files_are_changed(rest, i);
        let k = choose|k: int|
            0 <= k < rest.len() && (#[trigger] rest[k]).path@ == first[i] && !rest[k].symlink
                && rest[k].mode != 384;
        assert(files[k] == rest[k]);
    } else {
        assert(files[files.len() - 1] == files.last());
    }
}

} // verus!
