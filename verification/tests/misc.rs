use janitor::Profile;
use janitor::Timestamp;
use janitor::gc::GcStderrLine;
use janitor::gc::GcStdoutLine;
use janitor::gc::classify_stderr_line;
use janitor::gc::classify_stdout_line;
use janitor::interface::LogLevel;
use janitor::interface::NJParser;
use janitor::interface::SpanEvents;
use janitor::optional;
use janitor::user::get_real_username;
use janitor::user::is_root;

#[test]
fn true_gets_value_wrapped() {
    for v in [-10_000i32, -1, 0, 1, 9_999] {
        let option = optional(true, v);
        assert!(option.is_some());
        assert_eq!(option, Some(v));
    }
}

#[test]
fn false_gets_none() {
    for v in [-10_000i32, -1, 0, 1, 9_999] {
        assert!(optional(false, v).is_none());
    }
}

#[test]
fn test_is_root_root() {
    assert!(is_root(0));
}

#[test]
fn test_is_root() {
    for uid in [1u32, 57, 1000, 19_999] {
        assert!(!is_root(uid));
    }
}

#[test]
fn test_get_real_username() {
    let real = get_real_username(false, None, Some("alice".to_string()));
    assert_eq!(real, Some("alice".to_string()));
}

#[test]
fn test_get_real_username_root() {
    let real = get_real_username(true, Some("alice".to_string()), Some("root".to_string()));
    assert_eq!(real, Some("alice".to_string()));
}

fn args(keep_days: i64, keep_at_least: usize, by_age_only: bool, verbosity: u8, quiet: bool) -> NJParser {
    NJParser { keep_days, keep_at_least, by_age_only, verbosity, quiet }
}

#[test]
fn test_log_level_and_span() {
    let cases: Vec<(u8, bool, LogLevel, SpanEvents)> = vec![
        (0, false, LogLevel::Info, SpanEvents::NoSpans),
        (0, true, LogLevel::Warn, SpanEvents::NoSpans),
        (1, false, LogLevel::Debug, SpanEvents::NoSpans),
        (2, false, LogLevel::Trace, SpanEvents::NoSpans),
        (3, false, LogLevel::Trace, SpanEvents::EnterExit),
        (7, false, LogLevel::Trace, SpanEvents::EnterExit),
    ];
    for (verbosity, quiet, level, span) in cases {
        let parser = args(7, 5, false, verbosity, quiet);
        let (got_level, got_span) = parser.log_level_and_span();
        assert_eq!(got_level, level);
        assert_eq!(got_span, span);
    }
}

#[test]
fn effective_keep_at_least_honours_age_only() {
    assert_eq!(args(7, 5, false, 0, false).effective_keep_at_least(), 5);
    assert_eq!(args(7, 5, true, 0, false).effective_keep_at_least(), 1);
    assert_eq!(args(7, 0, true, 0, false).effective_keep_at_least(), 1);
}

#[test]
fn profile_new_keeps_the_path() {
    let profile = Profile::new("/foo/bar".to_string());
    assert_eq!(profile.path().as_str(), "/foo/bar");
}

#[test]
fn test_being_regular_user() {
    let profiles = Profile::all_for_user("alice", false);
    let paths: Vec<&str> = profiles.iter().map(|p| p.path().as_str()).collect();
    assert_eq!(
        paths,
        vec![
            "/nix/var/nix/profiles/per-user/alice/profile",
            "/home/alice/.local/state/nix/profiles/home-manager",
        ]
    );
}

#[test]
fn test_being_sudo_user() {
    let profiles = Profile::all_for_user("alice", true);
    let paths: Vec<&str> = profiles.iter().map(|p| p.path().as_str()).collect();
    assert_eq!(
        paths,
        vec![
            "/nix/var/nix/profiles/per-user/alice/profile",
            "/home/alice/.local/state/nix/profiles/home-manager",
            "/nix/var/nix/profiles/system",
        ]
    );
}

#[test]
fn timestamp_ordering_is_chronological() {
    let ts = |y: i32, mo: u8, d: u8| Timestamp { year: y, month: mo, day: d, hour: 0, minute: 0, second: 0 };
    assert!(ts(2022, 12, 31).lt(&ts(2023, 1, 1)));
    assert!(ts(2023, 1, 1).le(&ts(2023, 1, 1)));
    assert!(!ts(2023, 2, 1).lt(&ts(2023, 1, 15)));
    let a = Timestamp { year: 2023, month: 6, day: 1, hour: 8, minute: 10, second: 47 };
    let b = Timestamp { year: 2023, month: 6, day: 1, hour: 8, minute: 10, second: 48 };
    assert!(a.lt(&b));
    assert!(!b.le(&a));
}

#[test]
fn classify_stderr_fixed_lines() {
    assert_eq!(
        classify_stderr_line("waiting for the big garbage collector lock..."),
        GcStderrLine::WaitingForLock
    );
    assert_eq!(
        classify_stderr_line("finding garbage collector roots..."),
        GcStderrLine::FindingRoots
    );
    assert_eq!(classify_stderr_line("deleting garbage..."), GcStderrLine::DeletingGarbage);
    assert_eq!(
        classify_stderr_line("deleting unused links..."),
        GcStderrLine::DeletingUnusedLinks
    );
}

#[test]
fn classify_stderr_payload_lines() {
    assert_eq!(
        classify_stderr_line("note: currently hard linking saves 12.34 MiB"),
        GcStderrLine::HardLinkSavings { saved: "12.34 MiB".to_string() }
    );
    assert_eq!(
        classify_stderr_line("deleting '/nix/store/abc-foo'"),
        GcStderrLine::DeletingPath { path: "/nix/store/abc-foo".to_string() }
    );
    assert_eq!(
        classify_stderr_line("removing stale temporary roots file '/nix/temproots/123'"),
        GcStderrLine::RemovingStaleRootsFile { path: "/nix/temproots/123".to_string() }
    );
    assert_eq!(
        classify_stderr_line("removing stale link from '/nix/var/auto' to '/home/alice/result'"),
        GcStderrLine::RemovingStaleLink {
            auto_root: "/nix/var/auto".to_string(),
            target: "/home/alice/result".to_string(),
        }
    );
    assert_eq!(
        classify_stderr_line("deleting unused link '/nix/store/.links/xyz'"),
        GcStderrLine::DeletingUnusedLink { path: "/nix/store/.links/xyz".to_string() }
    );
}

#[test]
fn classify_stderr_unshaped_lines() {
    assert_eq!(classify_stderr_line("something new"), GcStderrLine::Unrecognized);
    assert_eq!(classify_stderr_line("deleting 'unterminated"), GcStderrLine::Unrecognized);
    assert_eq!(
        classify_stderr_line("removing stale link from '/only/one/path'"),
        GcStderrLine::Unrecognized
    );
}

#[test]
fn classify_stdout_lines() {
    assert_eq!(
        classify_stdout_line("2793 store paths deleted, 12401.45 MiB freed"),
        GcStdoutLine::Completed {
            deleted: "2793".to_string(),
            freed: "12401.45 MiB".to_string(),
        }
    );
    assert_eq!(classify_stdout_line("anything else"), GcStdoutLine::Unrecognized);
}
