//! Putting plugins in place and taking them away.

use pastor::plugin::install::clone_calls;
use pastor::plugin::install::is_yes;
use pastor::plugin::install::kind_of;
use pastor::plugin::install::may_place;
use pastor::plugin::install::uninstall;
use pastor::plugin::install::unlink;
use pastor::plugin::install::Found;
use pastor::plugin::install::InstallSource;
use pastor::plugin::install::Kind;
use pastor::plugin::install::DEFAULT_GIT_BASE;

#[test]
fn parses_install_sources() {
    let s = InstallSource::parse("cacarico/pastor/plugins/slack", DEFAULT_GIT_BASE).unwrap();
    assert_eq!(s.url, "https://github.com/cacarico/pastor.git");
    assert_eq!(s.subdir, Some("plugins/slack".to_string()));
    let s = InstallSource::parse("o/r.git", "file:///tmp/repos/").unwrap();
    assert_eq!(s.url, "file:///tmp/repos/o/r.git");
    assert_eq!(s.subdir, None);
    for bad in [
        "",
        "owner",
        "owner/",
        "../x",
        "o/r/../../etc",
        "o/r//abs",
        "a b/c",
    ] {
        assert!(
            InstallSource::parse(bad, DEFAULT_GIT_BASE).is_err(),
            "{bad}"
        );
    }
}

/// A source that cannot be read is named as it was written.
#[test]
fn a_bad_source_is_quoted() {
    assert_eq!(
        InstallSource::parse("a \"b\"", DEFAULT_GIT_BASE),
        Err("\"a \\\"b\\\"\" is not owner/repo or owner/repo/subdir".to_string())
    );
}

#[test]
fn a_link_is_unlinked_and_a_checkout_uninstalled() {
    let kind = |found| kind_of("slack", "/p", "/p/slack", found);
    assert_eq!(kind(Found::Link), Ok(Kind::Linked));
    assert_eq!(kind(Found::Directory), Ok(Kind::Managed));
    assert_eq!(kind(Found::Nothing), Err("no plugin \"slack\" in /p".to_string()));
    assert_eq!(
        kind(Found::Failed("denied".to_string())),
        Err("/p/slack: denied".to_string())
    );
    assert!(kind_of("../x", "/p", "/p/../x", Found::Link).is_err());

    assert_eq!(uninstall("slack", Kind::Managed), Ok(()));
    assert_eq!(unlink("slack", Kind::Linked), Ok(()));
    assert_eq!(
        uninstall("slack", Kind::Linked),
        Err("plugin \"slack\" is linked; use `pastor plugin unlink slack`".to_string())
    );
    assert_eq!(
        unlink("slack", Kind::Managed),
        Err("plugin \"slack\" is installed, not linked; use `pastor plugin uninstall slack`"
            .to_string())
    );
}

/// Only a clone that is to check out a given commit has its whole history.
#[test]
fn a_clone_is_shallow_unless_a_ref_is_given() {
    let calls = clone_calls("u", "c", None);
    assert_eq!(calls.len(), 1);
    assert_eq!(calls[0].args, ["clone", "--quiet", "--depth", "1", "u", "c"]);
    let calls = clone_calls("u", "c", Some("v1"));
    assert_eq!(calls.len(), 2);
    assert_eq!(calls[0].args, ["clone", "--quiet", "u", "c"]);
    assert_eq!(calls[1].args, ["-C", "c", "checkout", "--quiet", "v1"]);
}

#[test]
fn nothing_is_replaced_and_nothing_goes_in_unasked() {
    assert_eq!(may_place("a", "/p/a", false, &|| true), Ok(()));
    assert_eq!(
        may_place("a", "/p/a", false, &|| false),
        Err("install of \"a\" cancelled".to_string())
    );
    let never = || -> bool { panic!("asked") };
    assert_eq!(
        may_place("a", "/p/a", true, &never),
        Err("plugin \"a\" is already in /p/a; uninstall or unlink it first".to_string())
    );
}

#[test]
fn only_a_yes_is_a_yes() {
    for yes in ["y", "Y", "yes", " yes \n"] {
        assert!(is_yes(yes), "{yes:?}");
    }
    for no in ["", "n", "no", "YES", "yep"] {
        assert!(!is_yes(no), "{no:?}");
    }
}
