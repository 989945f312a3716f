use checkc::c_config::fs::{NsSearch, NsSearchAction};
use checkc::c_config::cgroup::{cgroup_of_lines, controllers_of_lines, memory_limit_set, Controller};
use checkc::c_config::fs::{
    add_found_flags, flag_file_name, flag_search_keeps, flag_target, keep_mountinfo_entry, keep_mounts_entry,
    namespace_index, new_mount_namespace, parse_mountinfo, parse_mounts, pid_selected, search_root, Info,
    MountNamespace,
};
use checkc::c_config::seccomp::{is_seccomp_line, seccomp_value, Mode};
use checkc::c_config::user_ns::{mappings_overlap, ns_considered, IdMapping};
use checkc::c_config::{NsConfig, NsId, NsInfo, NsType};
use checkc::evaluation::contains_ns_type;
use checkc::text::IntErrorKind;
use checkc::{map_io_error, map_io_error_str, Error};

const MOUNTINFO: &str = "36 35 98:0 /mnt1 /mnt2 rw,noatime master:1 - ext3 /dev/root rw,errors=continue";

fn strings(v: &[&str]) -> Vec<String> {
    v.iter().map(|s| s.to_string()).collect()
}

#[test]
fn mountinfo_lines_give_mount_point_and_type() {
    let e = parse_mountinfo(MOUNTINFO).unwrap();
    assert_eq!((e.mountpoint.as_str(), e.fs_type.as_str()), ("/mnt2", "ext3"));
    let e = parse_mountinfo("22 1 8:1 / / rw shared:1 master:2 - xfs /dev/sda1 rw").unwrap();
    assert_eq!((e.mountpoint.as_str(), e.fs_type.as_str()), ("/", "xfs"));
    assert!(parse_mountinfo("not a mountinfo line").is_none());
}

#[test]
fn mounts_pattern_keeps_the_last_character_of_the_mount_point() {
    let e = parse_mounts("sysfs /sys sysfs rw,nosuid 0 0").unwrap();
    assert_eq!((e.mountpoint.as_str(), e.fs_type.as_str()), ("s", "sysfs"));
    assert!(parse_mounts("sysfs /sys sysfs rw").is_none());
}

#[test]
fn mount_entries_are_filtered_by_type_and_place() {
    let fs_skips = strings(&["proc", "sysfs"]);
    let path_skips = strings(&["/proc", "/sys"]);
    assert!(!keep_mounts_entry("sysfs /sys sysfs rw 0 0", &fs_skips, &path_skips));
    assert!(keep_mounts_entry("/dev/sda1 /data ext4 rw 0 0", &fs_skips, &path_skips));
    assert!(keep_mountinfo_entry(MOUNTINFO, &fs_skips, &path_skips));
    assert!(!keep_mountinfo_entry("30 1 0:5 / /proc/fs rw - tmpfs none rw", &fs_skips, &path_skips));
    assert!(!keep_mountinfo_entry("garbage", &fs_skips, &path_skips));
}

#[test]
fn flag_files_go_on_mount_points() {
    let flag = flag_file_name("0b8f3d6e-1d7a-4c1e-9d55-3f2b8a8e1c11");
    assert_eq!(flag, "xyz_checkc_flag_0b8f3d6e-1d7a-4c1e-9d55-3f2b8a8e1c11");
    assert_eq!(flag_target(MOUNTINFO, "f").unwrap(), Some("/mnt2/f".to_string()));
    assert_eq!(flag_target("30 1 0:5 / /proc rw - proc proc rw", "f").unwrap(), None);
    match flag_target("x", "f") {
        Err(Error::ValueError { msg, val, path }) => {
            assert_eq!(msg, "Failed to parse mountinfo from mount point x");
            assert_eq!(val, "x");
            assert!(path.is_empty());
        }
        other => panic!("unexpected {other:?}"),
    }
    assert_eq!(search_root(MOUNTINFO).unwrap(), "/mnt2");
    assert!(search_root("x").is_err());
}

#[test]
fn flag_search_keeps_flag_files_outside_skipped_places() {
    let skips = strings(&["/proc"]);
    assert!(flag_search_keeps("/proc", Some((true, false)), Some("proc"), &skips));
    assert!(flag_search_keeps("/data/xyz_checkc_flag_1", Some((false, true)), Some("xyz_checkc_flag_1"), &skips));
    assert!(!flag_search_keeps("/proc/xyz_checkc_flag_1", Some((false, true)), Some("xyz_checkc_flag_1"), &skips));
    assert!(!flag_search_keeps("/data/other", Some((false, true)), Some("other"), &skips));
    assert!(!flag_search_keeps("/data/xyz_checkc_flag_1", None, Some("xyz_checkc_flag_1"), &skips));
    assert!(!flag_search_keeps("/data/xyz_checkc_flag_1", Some((false, false)), Some("xyz_checkc_flag_1"), &skips));
}

#[test]
fn found_flags_are_recorded_once() {
    let mut flags = strings(&["/a/f"]);
    add_found_flags(&mut flags, &strings(&["/mnt", "/a/f", "/b/f", "/b/f"]), "/mnt");
    assert_eq!(flags, strings(&["/a/f", "/b/f"]));
}

fn mount_ns(ino: u64) -> MountNamespace {
    MountNamespace { ns_id: Some(NsId { st_dev: 4, st_ino: ino }), ns_pids: vec![], mounts: vec![], mountinfo: vec![], flag_files: vec![] }
}

#[test]
fn mount_namespaces_are_grouped_by_identifier() {
    let nss = vec![mount_ns(1), mount_ns(2)];
    assert_eq!(namespace_index(&nss, NsId { st_dev: 4, st_ino: 2 }), Ok(Some(1)));
    assert_eq!(namespace_index(&nss, NsId { st_dev: 4, st_ino: 3 }), Ok(None));
    assert_eq!(namespace_index(&vec![mount_ns(1), mount_ns(1)], NsId { st_dev: 4, st_ino: 1 }), Err(()));

    let mut info = Info::new();
    info.ns_id = NsId { st_dev: 4, st_ino: 9 };
    info.mounts = strings(&["a", "b", "a"]);
    info.mountinfo = strings(&["m", "m"]);
    let ns = new_mount_namespace(&info, 42);
    assert_eq!(ns.ns_pids, vec![42]);
    assert_eq!(ns.mounts, strings(&["a", "b"]));
    assert_eq!(ns.mountinfo, strings(&["m"]));
    assert!(ns.flag_files.is_empty());
    assert!(ns.has_id(&NsId { st_dev: 4, st_ino: 9 }));
}

#[test]
fn processes_are_selected_by_list() {
    let list = vec![1, 5];
    assert!(pid_selected(None, 3));
    assert!(pid_selected(Some((&list, true)), 5));
    assert!(!pid_selected(Some((&list, true)), 3));
    assert!(pid_selected(Some((&list, false)), 3));
    assert!(!pid_selected(Some((&list, false)), 1));
}

#[test]
fn cgroup_files() {
    let c = controllers_of_lines(&strings(&["cpuset cpu io memory hugetlb pids rdma misc", "cpu bogus"]));
    assert_eq!(
        c,
        vec![Controller::Cpuset, Controller::Cpu, Controller::Io, Controller::Memory, Controller::Hugetlb, Controller::Pids, Controller::Rdma, Controller::Misc]
    );
    assert_eq!(Controller::from_name("perf_event").unwrap(), Controller::PerfEvent);
    match Controller::from_name("net_cls") {
        Err(Error::ConversionFailed(m)) => assert_eq!(m, "unknown cgroup controller: net_cls"),
        other => panic!("unexpected {other:?}"),
    }
    assert_eq!(cgroup_of_lines(&strings(&["0::/system.slice/docker-1.scope"])).unwrap(), "system.slice/docker-1.scope");
    assert!(matches!(cgroup_of_lines(&strings(&["12:pids:/", "0::/"])), Err(Error::CgroupError)));
    assert!(!memory_limit_set("max\n"));
    assert!(memory_limit_set("536870912\n"));
}

#[test]
fn seccomp_status_line() {
    assert!(is_seccomp_line("Seccomp:\t2"));
    assert!(!is_seccomp_line("NoNewPrivs:\t0"));
    assert_eq!(seccomp_value("Seccomp:\t2"), Ok(2));
    assert_eq!(seccomp_value("Seccomp:"), Err(IntErrorKind::Empty));
    assert_eq!(Mode::from_value(2).unwrap(), Mode::SeccompModeFilter);
    assert_eq!(Mode::from_value(0).unwrap(), Mode::SeccompModeDisabled);
    assert!(Mode::from_value(3).is_err());
    assert_eq!(Mode::SeccompModeStrict.name(), "SECCOMP_MODE_STRICT");
}

#[test]
fn id_mappings() {
    let m = IdMapping::parse("         0     100000      65536").unwrap();
    assert_eq!(m, IdMapping { current: 0, parent: 100000, range: 65536 });
    match IdMapping::parse("0 1") {
        Err(Error::ConversionFailed(msg)) => assert_eq!(msg, "invalid id_map content"),
        other => panic!("unexpected {other:?}"),
    }
    match IdMapping::parse("0 x 1") {
        Err(Error::ConversionFailed(msg)) => assert_eq!(msg, "parse error: invalid digit found in string"),
        other => panic!("unexpected {other:?}"),
    }
    let own = vec![IdMapping { current: 0, parent: 100000, range: 65536 }];
    assert!(mappings_overlap(&vec![IdMapping { current: 0, parent: 165535, range: 10 }], &own));
    assert!(!mappings_overlap(&vec![IdMapping { current: 0, parent: 165536, range: 10 }], &own));
    assert!(!mappings_overlap(&vec![], &own));
    let other = vec![IdMapping { current: 0, parent: 165535, range: 10 }];
    assert_eq!(mappings_overlap(&other, &own), mappings_overlap(&own, &other));
}

#[test]
fn user_namespaces_to_compare() {
    let id = |i| Some(NsId { st_dev: 4, st_ino: i });
    let init = NsInfo { ns_type: NsType::User, id: id(1), owner: None };
    let own = NsInfo { ns_type: NsType::User, id: id(2), owner: id(1) };
    let other = NsInfo { ns_type: NsType::User, id: id(3), owner: id(1) };
    let nested = NsInfo { ns_type: NsType::User, id: id(4), owner: id(3) };
    assert!(ns_considered(&other, &own, &init));
    assert!(!ns_considered(&own, &own, &init));
    assert!(!ns_considered(&init, &own, &init));
    assert!(!ns_considered(&nested, &own, &init));
    assert!(contains_ns_type(&[own, nested], NsType::User));
    assert!(!contains_ns_type(&[own], NsType::Pid));
}

#[test]
fn namespace_kind_names() {
    assert_eq!(NsType::Mount.proc_name(), "mnt");
    assert_eq!(NsType::Mount.as_str_name(), "TYPE_MOUNT");
    assert_eq!(NsType::Mount.debug_name(), "Mount");
    assert_eq!(NsType::all().len(), 8);
}

#[test]
fn io_errors_keep_path_and_source() {
    let e = map_io_error_str("/proc/1/stat", std::io::Error::from(std::io::ErrorKind::NotFound));
    match e {
        Error::MyIoError { path, source } => {
            assert_eq!(path, "/proc/1/stat");
            assert_eq!(source.kind(), std::io::ErrorKind::NotFound);
        }
        other => panic!("unexpected {other:?}"),
    }
    let p = std::path::PathBuf::from("/proc/1/uid_map");
    match map_io_error(&p, std::io::Error::from(std::io::ErrorKind::PermissionDenied)) {
        Error::MyIoError { path, source } => {
            assert_eq!(path, "/proc/1/uid_map");
            assert_eq!(source.kind(), std::io::ErrorKind::PermissionDenied);
        }
        other => panic!("unexpected {other:?}"),
    }
    match checkc::map_device_error(std::path::PathBuf::from("/dev/x"), None) {
        Error::DeviceError { path, source } => {
            assert_eq!(path, "/dev/x");
            assert!(source.is_none());
        }
        other => panic!("unexpected {other:?}"),
    }
}

#[test]
fn namespaces_split_by_the_host_identifiers() {
    let id = |i| NsId { st_dev: 4, st_ino: i };
    let info = |t, i| NsInfo { ns_type: t, id: Some(id(i)), owner: Some(id(1)) };
    let host = vec![id(10), id(11), id(12)];
    let container = vec![info(NsType::Mount, 20), info(NsType::Cgroup, 11), info(NsType::Uts, 22)];
    let cfg = NsConfig::from_namespaces(&host, &container);
    assert_eq!(cfg.shared_host, vec![info(NsType::Cgroup, 11)]);
    assert_eq!(cfg.unshared, vec![info(NsType::Mount, 20), info(NsType::Uts, 22)]);
}

#[test]
fn error_messages() {
    let e = Error::ValueError { msg: "Failed to parse PPID from value".to_string(), val: "x".to_string(), path: "/proc/1/stat".to_string() };
    assert_eq!(e.message(), "Failed to parse PPID from value: 'x' at '/proc/1/stat'");
    assert_eq!(Error::ConversionFailed("unknown device type".to_string()).message(), "ConversionFailed: unknown device type");
    assert_eq!(Error::CgroupError.message(), "Cgroup v1 is not supported");
    assert_eq!(Error::DeviceError { path: "/dev/x".to_string(), source: None }.message(), "'/dev/x' does not point to a device node");
    let s = Error::SyscallError { name: "open".to_string(), retval: -1, errno: 13, errno_msg: String::new() };
    assert_eq!(s.message(), "Syscall through libc failed: 'open', ret: -1, errno: d");
    let s = Error::SyscallError { name: "setns".to_string(), retval: -1, errno: -1, errno_msg: String::new() };
    assert_eq!(s.message(), format!("Syscall through libc failed: 'setns', ret: -1, errno: {:x}", -1i32));
    let io = std::io::Error::from(std::io::ErrorKind::NotFound);
    let text = io.to_string();
    assert_eq!(map_io_error_str("/p", io).message(), format!("Failed to access file at '/p': {text}"));
    assert_eq!(Error::IoctlFailed(nix::errno::Errno::EPERM).message(), "Ioctl failed: EPERM");
    assert!(Error::NixError { source: nix::errno::Errno::EACCES }.message().starts_with("NixError: EACCES"));
}

#[test]
fn kernel_threads_are_not_searched_through() {
    assert!(checkc::c_config::fs::searchable_through(Some("/sbin/init\0")));
    assert!(!checkc::c_config::fs::searchable_through(Some("")));
    assert!(!checkc::c_config::fs::searchable_through(None));
}

#[test]
fn new_flag_names_hold_a_uuid() {
    let a = checkc::c_config::fs::new_flag_file_name();
    let b = checkc::c_config::fs::new_flag_file_name();
    assert!(a.starts_with("xyz_checkc_flag_"));
    assert_eq!(a.len(), 52);
    assert!(checkc::evaluation::contains_uuid(&a));
    assert_ne!(a, b);
}

#[test]
fn mount_namespace_search_uses_the_first_usable_process() {
    let mut s = NsSearch::new(vec![2, 7, 9]);
    assert_eq!(s.action(), NsSearchAction::ReadCmdline(2));
    s.cmdline_read(Some(""));
    assert_eq!(s.action(), NsSearchAction::ReadCmdline(7));
    s.cmdline_read(Some("sleep\0"));
    assert_eq!(s.action(), NsSearchAction::Join(7));
    s.join_result(false);
    assert_eq!(s.action(), NsSearchAction::ReadCmdline(9));
    s.cmdline_read(None);
    assert_eq!(s.action(), NsSearchAction::GiveUp);
    let mut t = NsSearch::new(vec![4]);
    t.cmdline_read(Some("init\0"));
    t.join_result(true);
    assert_eq!(t.action(), NsSearchAction::Search);
    assert_eq!(NsSearch::new(vec![]).action(), NsSearchAction::GiveUp);
}
