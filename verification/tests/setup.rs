//! Installing the systemd units.

use std::cell::RefCell;

use pastor::quoting::shell_quote;
use pastor::setup::render;
use pastor::setup::secure;
use pastor::setup::secured_dir;
use pastor::setup::secured_file;
use pastor::setup::CmdOutput;
use pastor::setup::Install;
use pastor::setup::Linger;
use pastor::setup::Report;
use pastor::setup::Runner;
use pastor::setup::SeenDir;
use pastor::setup::SeenEnv;
use pastor::setup::SeenFile;
use pastor::setup::SetupNext;
use pastor::setup::Unit;
use pastor::setup::Written;
use pastor::setup::HERDR_UNIT;
use pastor::setup::PASTOR_UNIT;

struct FakeRunner {
    calls: RefCell<Vec<String>>,
    reply: Box<dyn Fn(&str) -> Result<CmdOutput, String>>,
}

impl FakeRunner {
    fn new(reply: impl Fn(&str) -> Result<CmdOutput, String> + 'static) -> FakeRunner {
        FakeRunner {
            calls: RefCell::new(Vec::new()),
            reply: Box::new(reply),
        }
    }

    /// systemctl succeeds, loginctl answers `linger`.
    fn ok(linger: &'static str) -> FakeRunner {
        FakeRunner::new(move |call| {
            Ok(CmdOutput {
                success: true,
                stdout: if call.starts_with("loginctl") {
                    format!("{linger}\n")
                } else {
                    String::new()
                },
                stderr: String::new(),
            })
        })
    }

    fn calls(&self) -> Vec<String> {
        self.calls.borrow().clone()
    }
}

impl Runner for FakeRunner {
    fn run(&self, program: &str, args: &Vec<String>) -> Result<CmdOutput, String> {
        let call = format!("{program} {}", args.join(" "));
        self.calls.borrow_mut().push(call.clone());
        (self.reply)(&call)
    }
}

fn install(unit: Unit) -> Install {
    Install {
        unit,
        unit_dir: "/h/systemd/user".to_string(),
        program: "/opt/bin/pastor".to_string(),
        env: vec![("PATH".into(), "/usr/bin:/opt/bin".into())],
    }
}

/// Writes over `current` and runs, as uid 1000.
fn run(install: &Install, current: Option<String>, runner: &FakeRunner) -> Result<Report, String> {
    let plan = install.write(&current);
    drive(install.run(Vec::new(), plan.written, Ok(1000)), runner)
}

/// Runs what the setup asks for.
fn drive(first: SetupNext, runner: &FakeRunner) -> Result<Report, String> {
    let mut next = first;
    loop {
        match next {
            SetupNext::Run(setup, call) => next = setup.step(runner.run(&call.program, &call.args)),
            SetupNext::End(end) => return end,
        }
    }
}

#[test]
fn shipped_units_meet_the_spec() {
    for unit in [Unit::Pastor, Unit::Herdr] {
        let t = unit.template();
        for line in [
            "After=network-online.target",
            "Restart=on-failure",
            "StandardOutput=journal",
            "WantedBy=default.target",
        ] {
            assert!(t.lines().any(|l| l == line), "{unit:?} lacks {line}");
        }
        assert_eq!(t.lines().filter(|l| l.starts_with("ExecStart=")).count(), 1);
    }
    assert!(PASTOR_UNIT.contains("ExecStart=%h/.cargo/bin/pastor serve"));
    assert!(HERDR_UNIT.contains("ExecStart=%h/.local/bin/herdr server"));
}

#[test]
fn render_replaces_the_program_and_keeps_the_arguments() {
    let env = vec![
        ("PATH".to_string(), "/usr/bin:/home/u/my bin".to_string()),
        ("PASTOR_STATE_DIR".to_string(), "/s/100%".to_string()),
    ];
    let text = render(PASTOR_UNIT, "/home/u/.cargo/bin/pastor", &env);
    let service: Vec<&str> = text
        .lines()
        .skip_while(|l| !l.starts_with("ExecStart="))
        .take(3)
        .collect();
    assert_eq!(
        service,
        [
            "ExecStart=/home/u/.cargo/bin/pastor serve",
            "Environment=\"PATH=/usr/bin:/home/u/my bin\"",
            "Environment=PASTOR_STATE_DIR=/s/100%%",
        ]
    );
    assert!(text.contains("Restart=on-failure\n"));
}

#[test]
fn render_quotes_an_awkward_binary_path() {
    let text = render(HERDR_UNIT, "/opt/my \"tools\"/herdr", &vec![]);
    assert!(
        text.contains("ExecStart=\"/opt/my \\\"tools\\\"/herdr\" server\n"),
        "{text}"
    );
}

#[test]
fn installs_enables_and_reports_lingering_off() {
    let runner = FakeRunner::ok("no");
    let i = install(Unit::Pastor);
    let plan = i.write(&None);
    let text = plan.text.clone().unwrap();
    assert!(text.contains("ExecStart=/opt/bin/pastor serve\n"), "{text}");
    assert!(text.contains("Environment=PATH=/usr/bin:/opt/bin\n"), "{text}");
    let report = drive(i.run(Vec::new(), plan.written, Ok(1000)), &runner).unwrap();
    assert_eq!(report.unit_path, "/h/systemd/user/pastor.service");
    assert_eq!(report.written, Written::Created);
    assert_eq!(
        runner.calls(),
        [
            "systemctl --user daemon-reload",
            "systemctl --user enable --now pastor.service",
            "loginctl show-user 1000 --property=Linger --value",
        ]
    );
    assert_eq!(report.linger, Linger::Off);
    let shown = report.describe();
    assert!(shown.contains("\n  loginctl enable-linger\n"), "{shown}");
    assert!(shown.contains("enabled and started pastor.service"), "{shown}");
}

#[test]
fn lingering_on_prints_no_hint() {
    let report = run(&install(Unit::Pastor), None, &FakeRunner::ok("yes")).unwrap();
    assert_eq!(report.linger, Linger::On);
    assert!(!report.describe().contains("enable-linger"));
}

#[test]
fn a_failing_loginctl_is_reported_not_fatal() {
    let runner = FakeRunner::new(|call| {
        if call.starts_with("loginctl") {
            Err("entity not found".to_string())
        } else {
            Ok(CmdOutput {
                success: true,
                ..Default::default()
            })
        }
    });
    let report = run(&install(Unit::Pastor), None, &runner).unwrap();
    assert!(matches!(report.linger, Linger::Unknown(_)));
    assert!(report.describe().contains("loginctl enable-linger"));
}

#[test]
fn a_failing_systemctl_is_an_error_with_its_stderr() {
    let runner = FakeRunner::new(|call| {
        Ok(CmdOutput {
            success: !call.contains("enable"),
            stdout: String::new(),
            stderr: "Failed to connect to bus: No medium found\n".into(),
        })
    });
    let err = run(&install(Unit::Pastor), None, &runner).unwrap_err();
    assert!(err.contains("systemctl --user enable --now pastor.service"), "{err}");
    assert!(err.contains("Failed to connect to bus"), "{err}");
    assert!(!runner.calls().iter().any(|c| c.starts_with("loginctl")));
}

/// Nothing is enabled where the unit files could not be read again.
#[test]
fn a_failing_reload_is_the_last_call() {
    let runner = FakeRunner::new(|_| Err("no systemctl".to_string()));
    let err = run(&install(Unit::Pastor), None, &runner).unwrap_err();
    assert_eq!(err, "run `systemctl --user daemon-reload`: no systemctl");
    assert_eq!(runner.calls(), ["systemctl --user daemon-reload"]);
}

/// A unit's path is joined as paths are.
#[test]
fn the_unit_goes_into_its_directory() {
    let path = |dir: &str| {
        let mut i = install(Unit::Pastor);
        i.unit_dir = dir.to_string();
        i.unit_path()
    };
    assert_eq!(path("/u"), "/u/pastor.service");
    assert_eq!(path("/u/"), "/u/pastor.service");
    assert_eq!(path(""), "pastor.service");
}

#[test]
fn rerunning_leaves_an_identical_unit_alone() {
    let i = install(Unit::Pastor);
    let first = i.write(&None).text;
    let plan = i.write(&first);
    assert!(plan.text.is_none());
    let again = run(&i, first, &FakeRunner::ok("yes")).unwrap();
    assert_eq!(again.written, Written::Unchanged);
}

#[test]
fn a_changed_unit_is_backed_up_before_it_is_replaced() {
    let current = Some("# hand edited\n".to_string());
    let report = run(&install(Unit::Pastor), current, &FakeRunner::ok("yes")).unwrap();
    assert_eq!(
        report.written,
        Written::Updated {
            backup: "/h/systemd/user/pastor.service.bak".to_string()
        }
    );
    assert!(report.describe().contains("systemctl --user restart pastor.service"));
}

#[test]
fn herdr_unit_skips_pastor_dirs() {
    let mut i = install(Unit::Herdr);
    i.program = "/home/u/.local/bin/herdr".to_string();
    let runner = FakeRunner::ok("yes");
    let text = i.write(&None).text.unwrap();
    let report = run(&i, None, &runner).unwrap();
    assert!(report.unit_path.ends_with("herdr.service"));
    assert!(text.contains("ExecStart=/home/u/.local/bin/herdr server\n"));
    assert!(runner.calls().contains(&"systemctl --user enable --now herdr.service".into()));
}

/// A uid that cannot be told makes lingering unknown, and loginctl is not asked.
#[test]
fn an_unknown_uid_makes_lingering_unknown() {
    let runner = FakeRunner::ok("yes");
    let first = install(Unit::Pastor).run(
        Vec::new(),
        Written::Created,
        Err("no uid".to_string()),
    );
    let report = drive(first, &runner).unwrap();
    assert_eq!(report.linger, Linger::Unknown("no uid".to_string()));
    assert_eq!(runner.calls().len(), 2);
}

#[test]
fn tightened_permissions_are_told() {
    assert_eq!(secured_dir("/c", None).unwrap(), "created /c (0700)");
    assert_eq!(secured_dir("/c", Some(0o755)).unwrap(), "/c: 0755 -> 0700");
    assert_eq!(secured_dir("/c", Some(0o700)), None);
    assert_eq!(secured_file("/c/env", 0o644, false).unwrap(), "/c/env: 0644 -> 0600");
    assert_eq!(secured_file("/c/env", 0o604, false).unwrap(), "/c/env: 0604 -> 0600");
    assert_eq!(secured_file("/c/env", 0o600, false), None);
    assert_eq!(secured_file("/c/env", 0o700, false).unwrap(), "/c/env: 0700 -> 0600");
    assert_eq!(secured_file("/c/env", 0o400, false).unwrap(), "/c/env: 0400 -> 0600");
    assert_eq!(secured_file("/c/env", 0o777, true), None, "a symlink is left alone");
}

/// Pastor's directories and files, with their modes.
struct Disk {
    dirs: Vec<(&'static str, Option<u32>)>,
    /// The file, the plugin whose `.env` it is, its mode, and whether it is a symlink.
    files: Vec<(&'static str, Option<&'static str>, u32, bool)>,
}

impl Disk {
    /// What `secure` says, once it is done.
    fn secure(&mut self) -> Vec<String> {
        let seen = |f: &(&str, Option<&str>, u32, bool)| SeenFile {
            path: f.0.into(),
            mode: f.2,
            symlink: f.3,
        };
        let dirs = self
            .dirs
            .iter()
            .map(|d| SeenDir {
                path: d.0.into(),
                mode: d.1,
            })
            .collect();
        let socket = self.files.iter().find(|f| f.1.is_none()).map(seen);
        let envs = self
            .files
            .iter()
            .filter_map(|f| {
                Some(SeenEnv {
                    plugin: f.1?.into(),
                    file: seen(f),
                })
            })
            .collect();
        let done = secure(&dirs, &socket, envs);
        for d in &mut self.dirs {
            d.1 = Some(0o700);
        }
        for f in &mut self.files {
            if done.change.iter().any(|c| c == f.0) {
                f.2 = 0o600;
            }
        }
        done.said
    }
}

#[test]
fn secure_creates_missing_dirs_private() {
    let mut disk = Disk {
        dirs: vec![("/c", None), ("/s", None)],
        files: vec![],
    };
    let fixed = disk.secure();
    assert_eq!(fixed.len(), 2, "{fixed:?}");
    assert_eq!(fixed, vec!["created /c (0700)", "created /s (0700)"]);
    assert!(disk.secure().is_empty(), "idempotent");
}

#[test]
fn secure_tightens_dirs_socket_and_env_files() {
    let mut disk = Disk {
        dirs: vec![("/c", Some(0o755)), ("/s", Some(0o700))],
        files: vec![
            ("/c/plugins/linear/.env", Some("linear"), 0o600, false),
            ("/c/plugins/github/.env", Some("github"), 0o644, false),
            ("/s/pastor.sock", None, 0o666, false),
        ],
    };
    let fixed = disk.secure();
    assert_eq!(fixed.len(), 3, "{fixed:?}");
    assert!(fixed[0].ends_with("0755 -> 0700"), "{fixed:?}");
    assert!(fixed[1].contains("pastor.sock: 0666 -> 0600"), "{fixed:?}");
    assert!(fixed[2].contains("github/.env: 0644 -> 0600"), "{fixed:?}");
    assert!(disk.files.iter().all(|f| f.2 == 0o600));
    assert!(disk.secure().is_empty());
}

/// Each `.env` becomes 0600, also one that only its owner could use, in the order of the
/// plugins.
#[test]
fn secure_brings_every_env_to_its_mode() {
    let mut disk = Disk {
        dirs: vec![("/c", Some(0o700)), ("/s", Some(0o700))],
        files: vec![
            ("/c/plugins/b/.env", Some("b"), 0o640, false),
            ("/c/plugins/a-b/.env", Some("a-b"), 0o400, false),
            ("/c/plugins/a/.env", Some("a"), 0o700, false),
        ],
    };
    assert_eq!(
        disk.secure(),
        vec![
            "/c/plugins/a/.env: 0700 -> 0600",
            "/c/plugins/a-b/.env: 0400 -> 0600",
            "/c/plugins/b/.env: 0640 -> 0600",
        ]
    );
    assert!(disk.secure().is_empty());
}

#[test]
fn secure_does_not_follow_a_symlinked_env() {
    let mut disk = Disk {
        dirs: vec![("/c", Some(0o700)), ("/s", Some(0o700))],
        files: vec![("/c/plugins/linked/.env", Some("linked"), 0o777, true)],
    };
    assert!(disk.secure().is_empty());
    assert_eq!(disk.files[0].2, 0o777);
}

#[test]
fn the_shell_reads_back_what_was_quoted() {
    assert_eq!(shell_quote("plain-word.1"), "plain-word.1");
    assert_eq!(shell_quote("two words"), "'two words'");
    assert_eq!(shell_quote("it's"), "'it'\\''s'");
    assert_eq!(shell_quote(""), "''");
}
