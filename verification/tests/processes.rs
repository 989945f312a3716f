use checkc::process::{pid_of_entry, ppid_from_stat, stat_path, stat_ppid_text, stat_reportable_exec, PidWalk, WalkAction};
use checkc::text::IntErrorKind;
use checkc::Error;

#[test]
fn process_directories_hold_a_digit() {
    assert_eq!(pid_of_entry("/proc/1234", "1234"), Some(Ok(1234)));
    assert_eq!(pid_of_entry("/proc/self", "self"), None);
    assert_eq!(pid_of_entry("/proc/acpi", "acpi"), None);
    assert_eq!(pid_of_entry("/proc/x86", "x86"), Some(Err(IntErrorKind::InvalidDigit)));
}

#[test]
fn stat_path_names_the_status_file() {
    assert_eq!(stat_path(4711), "/proc/4711/stat");
}

#[test]
fn parent_number_of_a_plain_stat_line() {
    let stat = "4711 (bash) S 4700 4711 4711 34816 4711 4194304 1 2 3";
    assert_eq!(stat_ppid_text(stat).as_deref(), Some("4700"));
    assert_eq!(ppid_from_stat(stat, "/proc/4711/stat").unwrap(), 4700);
}

#[test]
fn command_names_with_parentheses_take_the_longest_match() {
    // The command name is "a) S 1 (b"; the pattern takes the last ") S <digits>".
    let stat = "12 (a) S 1 (b) R 99 12 12";
    assert_eq!(stat_ppid_text(stat).as_deref(), Some("99"));
}

#[test]
fn line_breaks_end_the_command_name() {
    let stat = "12 (a\nb) S 7 1";
    assert_eq!(stat_ppid_text(stat), None);
    match ppid_from_stat(stat, "/proc/12/stat") {
        Err(Error::ValueError { msg, val, path }) => {
            assert_eq!(msg, "Failed to parse PPID from /proc/<pid>/stat");
            assert_eq!(val, stat);
            assert_eq!(path, "/proc/12/stat");
        }
        other => panic!("unexpected {other:?}"),
    }
}

#[test]
fn overflowing_parent_number_quotes_the_fourth_field() {
    let stat = "12 (a) S 99999999999 1";
    assert!(stat_reportable_exec(stat));
    match ppid_from_stat(stat, "/proc/12/stat") {
        Err(Error::ValueError { msg, val, .. }) => {
            assert_eq!(msg, "Failed to parse PPID from value");
            assert_eq!(val, "99999999999");
        }
        other => panic!("unexpected {other:?}"),
    }
    assert!(!stat_reportable_exec("12\t(a) S 99999999999"));
}

fn run_walk(cinit: i32, pids: Vec<i32>, stats: &[(i32, Option<&str>)]) -> Vec<i32> {
    let mut walk = PidWalk::new(cinit, pids);
    loop {
        match walk.action() {
            WalkAction::Done => return walk.found(),
            WalkAction::ReadStat(pid) => {
                let stat = stats.iter().find(|(p, _)| *p == pid).and_then(|(_, s)| *s);
                walk.step(stat).unwrap();
            }
        }
    }
}

#[test]
fn walk_finds_the_descendants_of_the_init_process() {
    // 100 is the container's init; 101 and 102 are below it, 200 is not,
    // 300 vanished before its status could be read.
    let stats = [
        (101, Some("101 (sh) S 100 1 1")),
        (102, Some("102 (sleep) S 101 1 1")),
        (200, Some("200 (cron) S 1 1 1")),
        (100, Some("100 (init) S 50 1 1")),
        (50, Some("50 (shim) S 1 1 1")),
        (300, None),
    ];
    let found = run_walk(100, vec![1, 50, 100, 101, 102, 200, 300], &stats);
    assert_eq!(found, vec![100, 101, 102]);
}

#[test]
fn walk_without_processes_finds_only_the_init_process() {
    assert_eq!(run_walk(7, vec![0, 1], &[]), vec![7]);
}

#[test]
fn walk_reports_unreadable_status_files() {
    let mut walk = PidWalk::new(10, vec![11]);
    assert_eq!(walk.action(), WalkAction::ReadStat(11));
    match walk.step(Some("garbage")) {
        Err(Error::ValueError { path, .. }) => assert_eq!(path, "/proc/11/stat"),
        other => panic!("unexpected {other:?}"),
    }
}
