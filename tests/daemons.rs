use emacs_daemons::daemon::{
    daemon_argument, daemon_names, discover, is_daemon_candidate, select_daemon, Config,
    DaemonError, DaemonProcess, ProcessInfo, SignalOutcome,
};
use emacs_daemons::extract::extract_socket_name;
use emacs_daemons::path::{file_name, join};
use emacs_daemons::system::{active_daemons_names, get_daemons, kill_daemon, kill_named};
use emacs_daemons::text::{contains_str, padded_left, padded_right, starts_with_str, to_decimal};

fn process(pid: u32, name: &str, cmd: &[&str], user_id: Option<u32>) -> ProcessInfo {
    ProcessInfo {
        pid,
        name: name.to_string(),
        cmd: cmd.iter().map(|a| a.to_string()).collect(),
        user_id,
    }
}

fn daemon(pid: u32, user_id: Option<u32>, socket_name: &str) -> DaemonProcess {
    DaemonProcess { pid, user_id, socket_name: socket_name.to_string() }
}

fn config() -> Config {
    Config { tmp_dir: "/tmp".to_string(), default_socket: "server".to_string() }
}

#[test]
fn discovery_plain_daemon_argument() {
    let procs = vec![process(4242, "emacs", &["emacs", "--daemon=main"], Some(1000))];
    assert_eq!(discover(&procs), vec![daemon(4242, Some(1000), "main")]);
}

#[test]
fn discovery_background_daemon_argument() {
    let procs = vec![process(
        77,
        "Emacs-27.2",
        &["emacs", "--bg-daemon=\\003,5\n/var/run/emacs1000/srv"],
        Some(1000),
    )];
    let found = discover(&procs);
    assert_eq!(found.len(), 1);
    assert_eq!(found[0].socket_name, "srv");
    assert_eq!(found[0].pid, 77);
}

#[test]
fn discovery_matches_name_by_prefix() {
    let procs = vec![process(5, "emacsclient", &["emacsclient", "--daemon=x"], Some(1))];
    assert_eq!(discover(&procs), vec![daemon(5, Some(1), "x")]);
}

#[test]
fn discovery_lowercases_the_name() {
    let procs = vec![process(6, "EMACS", &["EMACS", "--daemon=up"], None)];
    assert_eq!(discover(&procs), vec![daemon(6, None, "up")]);
}

#[test]
fn discovery_skips_other_processes() {
    let procs = vec![
        process(1, "vim", &["vim", "--daemon=a"], Some(1)),
        process(2, "emacs", &["emacs", "--fg=a"], Some(1)),
        process(3, "emacs", &["emacs"], Some(1)),
        process(4, "emacs", &["emacs", "--daemon"], Some(1)),
        process(5, "emacs", &["emacs", "--daemon=.."], Some(1)),
        process(6, "emacs", &["emacs", "--daemon=b"], Some(1)),
    ];
    assert_eq!(discover(&procs), vec![daemon(6, Some(1), "b")]);
}

#[test]
fn discovery_keeps_duplicate_names_in_order() {
    let procs = vec![
        process(10, "emacs", &["emacs", "--daemon=same"], Some(1)),
        process(11, "emacs", &["emacs", "--daemon=same"], Some(2)),
    ];
    assert_eq!(discover(&procs), vec![daemon(10, Some(1), "same"), daemon(11, Some(2), "same")]);
}

#[test]
fn discovery_of_empty_snapshot() {
    assert_eq!(discover(&vec![]), vec![]);
}

#[test]
fn discovered_names_are_single_components() {
    let procs = vec![
        process(1, "emacs", &["emacs", "--daemon=/tmp/sock/"], None),
        process(2, "emacs", &["emacs", "--daemon=a/./"], None),
        process(3, "emacs", &["emacs", "--daemon=x=y"], None),
    ];
    let found = discover(&procs);
    let names: Vec<&str> = found.iter().map(|d| d.socket_name.as_str()).collect();
    assert_eq!(names, vec!["sock", "a", "x=y"]);
    for d in &found {
        assert!(!d.socket_name.is_empty());
        assert!(!d.socket_name.contains('/'));
    }
}

#[test]
fn candidate_rule() {
    let args = |a: &[&str]| a.iter().map(|s| s.to_string()).collect::<Vec<String>>();
    assert!(is_daemon_candidate("emacs-27.2", &args(&["emacs", "--bg-daemon=x"])));
    assert!(!is_daemon_candidate("xemacs", &args(&["emacs", "--daemon=x"])));
    assert!(!is_daemon_candidate("emacs", &args(&["emacs"])));
    assert!(!is_daemon_candidate("emacs", &args(&["emacs", "--dae=x", "daemon"])));
}

#[test]
fn from_sys_process_ignores_the_name() {
    let p = process(9, "python", &["python", "--daemon=q"], Some(3));
    assert_eq!(DaemonProcess::from_sys_process(&p), Some(daemon(9, Some(3), "q")));
    let p = process(9, "emacs", &["emacs"], Some(3));
    assert_eq!(DaemonProcess::from_sys_process(&p), None);
}

#[test]
fn extraction_direct_form() {
    assert_eq!(extract_socket_name("--daemon=foo"), Some("foo".to_string()));
    assert_eq!(extract_socket_name("--daemon=x-1.2"), Some("x-1.2".to_string()));
}

#[test]
fn extraction_background_form() {
    assert_eq!(
        extract_socket_name("--bg-daemon=\\003,5\n/var/run/emacs1000/srv"),
        Some("srv".to_string())
    );
    assert_eq!(extract_socket_name("--bg-daemon=a\nb\n/p/q/name"), Some("name".to_string()));
    assert_eq!(extract_socket_name("--bg-daemon=\\003,5\nplain"), Some("plain".to_string()));
}

#[test]
fn extraction_failures() {
    assert_eq!(extract_socket_name("--daemon"), None);
    assert_eq!(extract_socket_name("--daemon="), None);
    assert_eq!(extract_socket_name("--daemon=/"), None);
    assert_eq!(extract_socket_name("--daemon=."), None);
    assert_eq!(extract_socket_name("--daemon=a/.."), None);
    assert_eq!(extract_socket_name("--bg-daemon=x\n"), None);
}

#[test]
fn final_path_component() {
    assert_eq!(file_name("a/b/c"), Some("c".to_string()));
    assert_eq!(file_name("a/b/"), Some("b".to_string()));
    assert_eq!(file_name("a//b/."), Some("b".to_string()));
    assert_eq!(file_name("./x"), Some("x".to_string()));
    assert_eq!(file_name(".."), None);
    assert_eq!(file_name(""), None);
    assert_eq!(file_name("//"), None);
}

#[test]
fn path_joining() {
    assert_eq!(join("/tmp", "emacs1000"), "/tmp/emacs1000");
    assert_eq!(join("/tmp/", "emacs1000"), "/tmp/emacs1000");
    assert_eq!(join("", "x"), "x");
}

#[test]
fn text_helpers() {
    assert!(contains_str("--bg-daemon=x", "daemon"));
    assert!(!contains_str("--daemo", "daemon"));
    assert!(contains_str("abc", ""));
    assert!(starts_with_str("emacs-27.2", "emacs"));
    assert!(!starts_with_str("emac", "emacs"));
    assert_eq!(to_decimal(0), "0");
    assert_eq!(to_decimal(4242), "4242");
    assert_eq!(to_decimal(u32::MAX), "4294967295");
    assert_eq!(padded_right("ab", 5), "ab   ");
    assert_eq!(padded_right("abcdef", 5), "abcdef");
    assert_eq!(padded_left("42", 5), "   42");
    assert_eq!(padded_left("123456", 5), "123456");
}

#[test]
fn socket_path_resolution() {
    let cfg = config();
    assert_eq!(daemon(1, Some(1000), "main").socket_path(&cfg), Some("/tmp/emacs1000/main".to_string()));
    assert_eq!(daemon(1, None, "main").socket_path(&cfg), None);
    let slash = Config { tmp_dir: "/var/tmp/".to_string(), default_socket: "s".to_string() };
    assert_eq!(daemon(1, Some(0), "s").socket_path(&slash), Some("/var/tmp/emacs0/s".to_string()));
}

#[test]
fn socket_file_results() {
    let cfg = config();
    let d = daemon(1, Some(1000), "main");
    assert_eq!(d.socket_file(&cfg, true), Ok("/tmp/emacs1000/main".to_string()));
    assert_eq!(
        d.socket_file(&cfg, false),
        Err(DaemonError::SocketMissing("/tmp/emacs1000/main".to_string()))
    );
    assert_eq!(
        daemon(1, None, "main").socket_file(&cfg, true),
        Err(DaemonError::NoUserId("main".to_string()))
    );
}

#[test]
fn socket_file_ignores_pid_and_default_socket() {
    let a = daemon(1, Some(7), "n");
    let b = daemon(2, Some(7), "n");
    let other = Config { tmp_dir: "/tmp".to_string(), default_socket: "other".to_string() };
    assert_eq!(a.socket_file(&config(), true), b.socket_file(&other, true));
    assert_eq!(a.socket_file(&config(), false), b.socket_file(&other, false));
}

#[test]
fn listing_line_format() {
    let cfg = config();
    let d = daemon(4242, Some(1000), "main");
    let expected = format!("{:<14} [Pid: {:>8}, Socket: {:<30} ]", "main", 4242, "/tmp/emacs1000/main");
    assert_eq!(d.show(&cfg, true), expected);
    assert_eq!(d.show(&cfg, true), "main           [Pid:     4242, Socket: /tmp/emacs1000/main            ]");
}

#[test]
fn listing_line_reports_missing_sockets() {
    let cfg = config();
    let d = daemon(7, Some(1000), "a-very-long-socket-name");
    let expected = format!(
        "{:<14} [Pid: {:>8}, Socket: {:<30} ]",
        "a-very-long-socket-name", 7, "/tmp/emacs1000/a-very-long-socket-name (missing)"
    );
    assert_eq!(d.show(&cfg, false), expected);
    let unknown = daemon(8, None, "x");
    assert_eq!(unknown.show(&cfg, true), format!("{:<14} [Pid: {:>8}, Socket: {:<30} ]", "x", 8, "unknown"));
}

#[test]
fn selection_takes_first_match() {
    let ds = vec![daemon(1, Some(1), "a"), daemon(2, Some(1), "main"), daemon(3, Some(2), "main")];
    assert_eq!(select_daemon(&ds, "main"), Some(1));
    assert_eq!(select_daemon(&ds, "a"), Some(0));
    assert_eq!(select_daemon(&ds, "nope"), None);
    assert_eq!(select_daemon(&vec![], "main"), None);
}

#[test]
fn kill_of_present_daemon_yields_pid() {
    let ds = vec![daemon(4242, Some(1000), "main")];
    let i = select_daemon(&ds, "main").unwrap();
    assert_eq!(ds[i].kill_outcome(SignalOutcome::Delivered), Ok(4242));
}

#[test]
fn kill_outcome_errors() {
    let d = daemon(31, Some(1), "w");
    assert_eq!(d.kill_outcome(SignalOutcome::Refused), Err(DaemonError::SignalRefused("w".to_string(), 31)));
    assert_eq!(
        d.kill_outcome(SignalOutcome::Unsupported),
        Err(DaemonError::SignalUnsupported("w".to_string(), 31))
    );
    assert_eq!(d.kill_outcome(SignalOutcome::NoSuchProcess), Err(DaemonError::PidGone("w".to_string(), 31)));
}

#[test]
fn kill_without_match_names_the_socket() {
    let name = "nope-no-such-daemon-here";
    assert_eq!(kill_daemon(name), Err(DaemonError::NoMatch(name.to_string())));
}

#[test]
fn launch_argument_defaults_to_configured_socket() {
    let cfg = config();
    assert_eq!(daemon_argument(None, &cfg), "--daemon=server");
    assert_eq!(daemon_argument(Some("work"), &cfg), "--daemon=work");
    assert_eq!(extract_socket_name(&daemon_argument(Some("work"), &cfg)), Some("work".to_string()));
}

#[test]
fn names_of_records() {
    let ds = vec![daemon(1, None, "a"), daemon(2, None, "b")];
    assert_eq!(daemon_names(&ds), vec!["a".to_string(), "b".to_string()]);
}

#[test]
fn live_snapshot_records_are_well_formed() {
    for d in get_daemons() {
        assert!(!d.socket_name.is_empty());
        assert!(!d.socket_name.contains('/'));
    }
    for n in active_daemons_names() {
        assert!(!n.is_empty());
        assert!(!n.contains('/'));
    }
}

#[test]
fn kill_of_absent_pid_reports_it_gone() {
    let d = daemon(4_000_000_000, Some(1), "ghost");
    assert_eq!(d.kill(), Err(DaemonError::PidGone("ghost".to_string(), 4_000_000_000)));
}

#[test]
fn kill_named_without_match() {
    let ds = vec![daemon(1, Some(1), "a")];
    assert_eq!(kill_named(&ds, "nope"), Err(DaemonError::NoMatch("nope".to_string())));
    assert_eq!(kill_named(&vec![], "main"), Err(DaemonError::NoMatch("main".to_string())));
}

#[test]
fn kill_named_signals_first_match() {
    let ds = vec![daemon(4_000_000_001, Some(1), "main"), daemon(4_000_000_002, Some(1), "main")];
    assert_eq!(kill_named(&ds, "main"), Err(DaemonError::PidGone("main".to_string(), 4_000_000_001)));
}
