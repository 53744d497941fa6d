//! Plugin manifests.

use pastor::plugin::file::Mode;
use pastor::plugin::manifest::check_command;
use pastor::plugin::manifest::check_env_name;
use pastor::plugin::manifest::check_event_type;
use pastor::plugin::manifest::check_id;
use pastor::plugin::manifest::is_builtin;
use pastor::plugin::manifest::timeout_or_default;
use pastor::plugin::manifest::Manifest;
use pastor::plugin::manifest::DEFAULT_TIMEOUT_SECS;
use pastor::plugin::version::crate_version;
use pastor::plugin::version::pastor_version;
use pastor::plugin::version::Version;
use pastor::time::Duration;

fn json(text: &str) -> serde_json::Value {
    serde_json::from_str(text).unwrap()
}

#[test]
fn a_pre_release_crate_version_compares_as_its_release() {
    assert_eq!(crate_version("0.4.0-rc.1"), Version(0, 4, 0));
    assert_eq!(crate_version("0.4.0+build.7"), Version(0, 4, 0));
    assert_eq!(crate_version("0.3.0"), Version(0, 3, 0));
    // Whatever Cargo.toml says, this must not panic.
    let _ = pastor_version();
}

const SPEC_EXAMPLE: &str = r#"
id = "slack"
name = "Slack"
version = "0.1.0"
min_pastor_version = "0.1.0"
description = "Watch a channel, report back in thread, DM on blocked"

[connector]
mode = "poll"
command = ["bash", "poll.sh"]
timeout = "60s"

[connector.config.channel]
required = true
description = "Channel ID to watch"

[secrets.SLACK_BOT_TOKEN]
description = "Bot token with channels:history and chat:write"

[[events]]
on = ["task.done", "task.blocked", "task.failed"]
only_own = true
command = ["bash", "report.sh"]

[[events]]
on = ["task.blocked", "machine.lost"]
command = ["bash", "dm-me.sh"]
"#;

#[test]
fn parses_the_spec_example() {
    let m = Manifest::parse(SPEC_EXAMPLE).unwrap();
    assert_eq!(m.id, "slack");
    assert_eq!(m.name, "Slack");
    assert_eq!(m.version, Version(0, 1, 0));
    let c = m.connector.as_ref().unwrap();
    assert_eq!(c.mode, Mode::Poll);
    assert_eq!(c.command, vec!["bash", "poll.sh"]);
    assert_eq!(c.timeout, Duration::from_secs(60));
    assert!(c.config.iter().find(|d| d.name == "channel").unwrap().required);
    assert!(m.secrets.iter().any(|s| s.name == "SLACK_BOT_TOKEN"));
    assert_eq!(m.events.len(), 2);
    assert!(m.events[0].only_own);
    assert!(!m.events[1].only_own);
    assert_eq!(m.events[1].on, vec!["task.blocked", "machine.lost"]);
    assert_eq!(
        m.events[1].timeout,
        Duration::from_secs(DEFAULT_TIMEOUT_SECS)
    );
}

#[test]
fn minimal_connector_and_minimal_hook() {
    let m =
        Manifest::parse("id = \"c\"\nversion = \"1.0.0\"\n[connector]\ncommand = [\"./run\"]\n")
            .unwrap();
    assert_eq!(m.name, "c", "name defaults to the id");
    let c = m.connector.unwrap();
    assert_eq!(c.mode, Mode::Poll, "mode defaults to poll");
    assert_eq!(c.timeout, Duration::from_secs(DEFAULT_TIMEOUT_SECS));
    let m = Manifest::parse(
        "id = \"h\"\nversion = \"1.0.0\"\n[[events]]\non = [\"task.done\"]\ncommand = [\"x\"]\ntimeout = \"5s\"\n",
    )
    .unwrap();
    assert!(m.connector.is_none());
    assert_eq!(m.events[0].timeout, Duration::from_secs(5));
}

#[test]
fn rejects_bad_manifests() {
    let base = "id = \"ok\"\nversion = \"0.1.0\"\n";
    let conn = "[connector]\ncommand = [\"x\"]\n";
    for (text, needle) in [
        (base.to_string(), "must provide"),
        (
            format!("id = \"Bad\"\nversion = \"0.1.0\"\n{conn}"),
            "must match",
        ),
        (
            format!("id = \"ok\"\nversion = \"1\"\n{conn}"),
            "major.minor.patch",
        ),
        (format!("id = \"ok\"\n{conn}"), "version"),
        (
            format!("id = \"clock\"\nversion = \"0.1.0\"\n{conn}"),
            "reserved for the built-in connector",
        ),
        (format!("{base}colour = 1\n{conn}"), "colour"),
        (
            format!("{base}[connector]\ncommand = []\n"),
            "connector.command",
        ),
        (
            format!("{base}[connector]\ncommand = [\"x\"]\nmode = \"push\"\n"),
            "push",
        ),
        (
            format!("{base}[connector]\ncommand = [\"x\"]\ntimeout = \"0s\"\n"),
            "must not be zero",
        ),
        (
            format!("{base}[connector]\ncommand = [\"x\"]\ntimeout = \"soon\"\n"),
            "connector.timeout",
        ),
        (
            format!(
                "{base}[connector]\ncommand = [\"x\"]\n[connector.config.k]\nrequired = true\ntype = \"s\"\n"
            ),
            "type",
        ),
        (format!("{base}{conn}[secrets.token]\n"), "secrets.token"),
        (
            format!("{base}[[events]]\non = []\ncommand = [\"x\"]\n"),
            "events[0].on",
        ),
        (
            format!("{base}[[events]]\non = [\"done\"]\ncommand = [\"x\"]\n"),
            "event type",
        ),
        (
            format!("{base}[[events]]\non = [\"task.done\"]\ncommand = [\"\"]\n"),
            "events[0].command",
        ),
        (
            format!("id = \"ok\"\nversion = \"0.1.0\"\nmin_pastor_version = \"99.0.0\"\n{conn}"),
            "needs pastor 99.0.0",
        ),
    ] {
        let err = Manifest::parse(&text).unwrap_err();
        assert!(err.contains(needle), "{needle}: {err}\n{text}");
    }
}

#[test]
fn min_pastor_version_compares_numerically() {
    let text = "id = \"a\"\nversion = \"0.1.0\"\nmin_pastor_version = \"0.10.0\"\n[connector]\ncommand = [\"x\"]\n";
    assert!(Manifest::parse_for(text, &Version(0, 9, 0)).is_err());
    assert!(Manifest::parse_for(text, &Version(0, 10, 0)).is_ok());
    assert!(Manifest::parse_for(text, &Version(1, 0, 0)).is_ok());
}

#[test]
fn check_config_enforces_required_keys_only() {
    let m = Manifest::parse(SPEC_EXAMPLE).unwrap();
    assert!(m.check_config(&json("{\"channel\": \"C1\"}")).is_ok());
    assert!(m.check_config(&json("{\"channel\": \"C1\", \"extra\": 1}")).is_ok());
    let err = m.check_config(&json("{}")).unwrap_err();
    assert!(err.contains("requires connector.channel"), "{err}");
    let hooks_only = Manifest::parse(
        "id = \"n\"\nversion = \"0.1.0\"\n[[events]]\non = [\"task.done\"]\ncommand = [\"x\"]\n",
    )
    .unwrap();
    assert!(
        hooks_only
            .check_config(&json("{}"))
            .unwrap_err()
            .contains("no connector")
    );
}

/// A required key that is null is a missing key, and a config that is no object
/// has no keys.
#[test]
fn a_null_key_is_missing() {
    let m = Manifest::parse(SPEC_EXAMPLE).unwrap();
    for config in ["{\"channel\": null}", "null", "[1]", "\"channel\""] {
        let err = m.check_config(&json(config)).unwrap_err();
        assert_eq!(err, "plugin \"slack\" requires connector.channel", "{config}");
    }
}

/// The declarations come out in the order of their names, with what they say.
#[test]
fn declarations_are_ordered_by_name() {
    let m = Manifest::parse(
        "id = \"a\"\nversion = \"0.1.0\"\n[connector]\ncommand = [\"x\"]\n\
         [connector.config.zeta]\n[connector.config.alpha]\nrequired = true\ndescription = \"d\"\n\
         [secrets.ZED]\n[secrets.ABC]\ndescription = \"s\"\n",
    )
    .unwrap();
    let c = m.connector.unwrap();
    let names: Vec<&str> = c.config.iter().map(|d| d.name.as_str()).collect();
    assert_eq!(names, vec!["alpha", "zeta"]);
    assert!(c.config[0].required && !c.config[1].required);
    assert_eq!(c.config[0].description.as_deref(), Some("d"));
    let names: Vec<&str> = m.secrets.iter().map(|d| d.name.as_str()).collect();
    assert_eq!(names, vec!["ABC", "ZED"]);
    assert_eq!(m.secrets[0].description.as_deref(), Some("s"));
    assert_eq!(m.secrets[1].description, None);
}

/// Several missing keys are named in the order of their names.
#[test]
fn missing_keys_are_named_in_order() {
    let m = Manifest::parse(
        "id = \"a\"\nversion = \"0.1.0\"\n[connector]\ncommand = [\"x\"]\n\
         [connector.config.zeta]\nrequired = true\n[connector.config.mid]\n\
         [connector.config.alpha]\nrequired = true\n",
    )
    .unwrap();
    assert_eq!(
        m.check_config(&json("{}")).unwrap_err(),
        "plugin \"a\" requires connector.alpha, connector.zeta"
    );
    assert_eq!(
        m.check_config(&json("{\"alpha\": 1}")).unwrap_err(),
        "plugin \"a\" requires connector.zeta"
    );
}

/// A text that is no TOML document at all is refused with what the reader says.
#[test]
fn a_text_that_is_not_toml_is_refused() {
    assert!(Manifest::parse("id = \n").is_err());
    assert!(Manifest::parse("[connector").is_err());
    let err = Manifest::parse("id = 1\nversion = \"0.1.0\"\n").unwrap_err();
    assert!(err.contains("id"), "{err}");
}

#[test]
fn a_stream_connector_says_so() {
    let m = Manifest::parse(
        "id = \"c\"\nversion = \"1.0.0\"\n[connector]\nmode = \"stream\"\ncommand = [\"./run\"]\n",
    )
    .unwrap();
    let mode = m.connector.unwrap().mode;
    assert_eq!(mode, Mode::Stream);
    assert_eq!(mode.name(), "stream");
    assert_eq!(Mode::default().name(), "poll");
}

#[test]
fn ids_commands_names_and_event_types_are_checked() {
    assert!(check_id("slack").is_ok());
    for bad in ["", "Slack", "-a", "a/b", "..", "a b"] {
        assert!(check_id(bad).unwrap_err().contains("must match"), "{bad:?}");
    }
    assert!(is_builtin("clock"));
    assert!(!is_builtin("slack"));

    assert_eq!(check_command("f", &vec!["x".to_string()]), Ok(()));
    assert!(check_command("f", &vec![]).unwrap_err().starts_with("f"));
    assert!(check_command("f", &vec![String::new()]).is_err());

    assert_eq!(check_env_name("SLACK_BOT_TOKEN"), Ok(()));
    for bad in ["", "token", "1A", "A-B"] {
        assert!(check_env_name(bad).is_err(), "{bad:?}");
    }

    assert_eq!(check_event_type("task.done"), Ok(()));
    for bad in ["", "done", "task.", ".done", "Task.done"] {
        assert!(check_event_type(bad).is_err(), "{bad:?}");
    }
}

#[test]
fn a_timeout_has_a_default_and_is_never_zero() {
    assert_eq!(timeout_or_default("f", &None), Ok(Duration::from_secs(60)));
    assert_eq!(
        timeout_or_default("f", &Some("5m".to_string())),
        Ok(Duration::from_secs(300))
    );
    assert!(timeout_or_default("f", &Some("0s".to_string())).unwrap_err().contains("f"));
    assert!(timeout_or_default("f", &Some("soon".to_string())).is_err());
}

/// A version's text reads back, versions order by their numbers, and anything but
/// three numbers is refused.
#[test]
fn versions_read_back_and_order_by_number() {
    for v in [Version(0, 0, 0), Version(0, 10, 2), Version(u64::MAX, 1, 0)] {
        assert_eq!(Version::parse(&v.print()), Ok(v));
    }
    assert_eq!(Version(1, 2, 3).print(), "1.2.3");
    assert_eq!(Version::parse(" 1.2.3\n"), Ok(Version(1, 2, 3)), "trimmed");
    assert_eq!(Version::parse("1.+2.03"), Ok(Version(1, 2, 3)), "as numbers are read");
    assert!(Version(0, 9, 0).is_older(&Version(0, 10, 0)));
    assert!(!Version(0, 10, 0).is_older(&Version(0, 9, 9)));
    assert!(!Version(1, 0, 0).is_older(&Version(1, 0, 0)));
    for bad in ["", "1", "1.2", "1.2.3.4", "a.b.c", "1.2.-3", "18446744073709551616.0.0"] {
        let err = Version::parse(bad).unwrap_err();
        assert!(err.contains("major.minor.patch"), "{bad:?}: {err}");
    }
}
