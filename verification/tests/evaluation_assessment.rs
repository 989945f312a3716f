use checkc::assessment::{assess_capabilities, assess_eval_result, Criticality, SecResult};
use checkc::c_config::caps::{caps_from_mask, CapsConfig, Capability};
use checkc::c_config::cgroup::{CgroupConfig, Controller};
use checkc::c_config::chroot::{ChrootConfig, Root};
use checkc::c_config::device::{Device, DeviceConfig, DeviceId, DeviceType};
use checkc::c_config::fs::{FsConfig, MountNamespace};
use checkc::c_config::seccomp::{Mode, SeccompConfig};
use checkc::c_config::user_ns::{IdMapping, UserNsConfig};
use checkc::c_config::uts::UtsConfig;
use checkc::c_config::{Config, HostInfo, NsConfig, NsId, NsInfo, NsType};
use checkc::evaluation::{is_evaluable, Chroot, DevicePolicy, EvalPolicy, EvalResult, TestName};

const HOST_USER_NS: NsId = NsId { st_dev: 4, st_ino: 4026531837 };

fn ns(ns_type: NsType, ino: u64, owner: NsId) -> NsInfo {
    NsInfo { ns_type, id: Some(NsId { st_dev: 4, st_ino: ino }), owner: Some(owner) }
}

fn device(file: &str, dev_type: DeviceType, major: u32, minor: u32) -> Device {
    Device {
        file: file.to_string(),
        id: Some(DeviceId { dev_type, major, minor }),
        permissions: 0o666,
        user: 0,
        group: 0,
        read_access: true,
        write_access: true,
    }
}

fn policy() -> EvalPolicy {
    EvalPolicy {
        devices: DevicePolicy {
            major_whitelist: vec![(DeviceType::Char, 136)],
            whitelist_general: vec![DeviceId { dev_type: DeviceType::Char, major: 1, minor: 3 }],
            whitelist_unprivileged: vec![],
        },
        cgroup_controllers_required: vec![Controller::Cpu, Controller::Memory],
    }
}

/// A container with its own namespaces but the host's user namespace, the
/// default capability set, an unlimited CPU, a block device, a mapping to
/// the host's root and seccomp filtering.
fn docker_like() -> Config {
    let unshared = vec![
        ns(NsType::Mount, 201, HOST_USER_NS),
        ns(NsType::Uts, 202, HOST_USER_NS),
        ns(NsType::Ipc, 203, HOST_USER_NS),
        ns(NsType::Pid, 204, HOST_USER_NS),
        ns(NsType::Network, 205, HOST_USER_NS),
        ns(NsType::Cgroup, 206, HOST_USER_NS),
    ];
    let shared_host = vec![
        NsInfo { ns_type: NsType::User, id: Some(HOST_USER_NS), owner: None },
        ns(NsType::Time, 207, HOST_USER_NS),
    ];
    let prm = caps_from_mask(0xa80425fb);
    Config {
        ns_config: Some(NsConfig { unshared, shared_host }),
        caps_config: Some(CapsConfig {
            cap_inh: vec![],
            cap_prm: prm.clone(),
            cap_eff: prm.clone(),
            cap_bnd: prm,
            cap_amb: vec![],
        }),
        cgroup_config: Some(CgroupConfig {
            cgroup: "system.slice/docker-1.scope".to_string(),
            controllers: vec![Controller::Cpu, Controller::Memory, Controller::Pids],
            cpu_max: Some("max 100000".to_string()),
            memory_max: Some("536870912".to_string()),
        }),
        fs_config: Some(FsConfig { container_namespaces: vec![], ref_container_namespaces: vec![], host_namespaces: vec![] }),
        user_ns_config: Some(UserNsConfig {
            uid_map: vec![IdMapping { current: 0, parent: 0, range: 4294967295 }],
            gid_map: vec![IdMapping { current: 0, parent: 0, range: 4294967295 }],
            unique_mapping: false,
        }),
        seccomp_config: Some(SeccompConfig { mode: Mode::SeccompModeFilter, syscall_map: vec![] }),
        uts_config_host: Some(UtsConfig { hostname: "host".to_string(), domainname: "(none)".to_string() }),
        uts_config_container: Some(UtsConfig { hostname: "c1".to_string(), domainname: "(none)".to_string() }),
        chroot_config: Some(ChrootConfig {
            host: Some(Root { path: "/".to_string(), st_ino: 2, st_dev: 1 }),
            container: Some(Root { path: "/".to_string(), st_ino: 5, st_dev: 9 }),
        }),
        device_config: Some(DeviceConfig {
            dev_devices: vec![device("/dev/null", DeviceType::Char, 1, 3), device("/dev/sda", DeviceType::Block, 8, 0)],
            mknod_devices: vec![],
        }),
        info: Some(HostInfo { pids_container: vec![100, 101], pids_ref_container: vec![200], pid_host: 1 }),
    }
}

fn passed(e: &EvalResult, cat: &checkc::evaluation::Category, name: TestName) -> bool {
    let _ = e;
    cat.test(name).unwrap().passed
}

#[test]
fn evaluation_of_a_default_container() {
    let cfg = docker_like();
    assert!(is_evaluable(&cfg));
    let e = EvalResult::from_config(&cfg, "/var/lib/c1/rootfs", &policy()).unwrap();
    let c = &e.categories;
    assert!(!e.unprivileged);
    assert_eq!(e.info.as_ref().unwrap().container_root_host, "/var/lib/c1/rootfs");
    assert_eq!(e.info.as_ref().unwrap().pids_container, vec![100, 101]);

    assert!(passed(&e, &c.network, TestName::ContainerSpecificHostname));
    assert!(!passed(&e, &c.network, TestName::ContainerSpecificDomainname));
    assert_eq!(c.network.capabilities, vec![Capability::CapNetBindService, Capability::CapNetRaw]);

    let fs_iso = c.filesystem.isolation.as_ref().unwrap();
    let chroot = fs_iso.chroot.unwrap();
    assert!(chroot.chroot && chroot.pivot_root);
    assert!(passed(&e, &c.filesystem, TestName::FlagMatchesHost));
    assert!(passed(&e, &c.filesystem, TestName::FlagMatchesRefcontainer));

    assert!(!passed(&e, &c.devices, TestName::DevWhitelistCompliance));
    assert_eq!(c.devices.test(TestName::DevWhitelistCompliance).unwrap().info.len(), 1);
    assert!(passed(&e, &c.devices, TestName::MknodWhitelistCompliance));
    assert_eq!(c.devices.capabilities, vec![Capability::CapMknod]);

    assert!(!passed(&e, &c.resource_control, TestName::CpuMaxLimited));
    assert!(passed(&e, &c.resource_control, TestName::MemoryMaxLimited));
    assert!(passed(&e, &c.resource_control, TestName::RequiredCgroupsControllersActive));
    assert_eq!(c.resource_control.test(TestName::CpuMaxLimited).unwrap().info, vec!["max 100000".to_string()]);

    assert!(!passed(&e, &c.access_control, TestName::UserNsMapsToNonRootUser));
    assert!(!passed(&e, &c.access_control, TestName::UserNsMappingUnique));
    assert!(passed(&e, &c.access_control, TestName::SeccompEnabled));

    let pc = c.process_control.isolation.as_ref().unwrap().namespaces.as_ref().unwrap();
    assert_eq!(pc.desired, vec![NsType::Ipc, NsType::Pid]);
    assert_eq!(pc.active.len(), 2);
    let time = c.time.isolation.as_ref().unwrap().namespaces.as_ref().unwrap();
    assert!(time.active.is_empty());
}

#[test]
fn missing_cgroup_limit_files_fail_their_tests() {
    let mut cfg = docker_like();
    cfg.cgroup_config = Some(CgroupConfig::new("x".to_string(), vec![Controller::Pids], String::new(), String::new()));
    let e = EvalResult::from_config(&cfg, "/", &policy()).unwrap();
    let rc = &e.categories.resource_control;
    assert_eq!(rc.test(TestName::CpuMaxLimited).unwrap().info, vec!["cpu.max not available".to_string()]);
    assert!(!rc.test(TestName::MemoryMaxLimited).unwrap().passed);
    assert!(!rc.test(TestName::RequiredCgroupsControllersActive).unwrap().passed);
}

#[test]
fn incomplete_configurations_are_not_evaluable() {
    let mut cfg = docker_like();
    cfg.seccomp_config = None;
    assert!(!is_evaluable(&cfg));
    let mut cfg = docker_like();
    cfg.device_config.as_mut().unwrap().dev_devices[0].id = None;
    assert!(!is_evaluable(&cfg));
}

#[test]
fn assessment_of_a_default_container() {
    let e = EvalResult::from_config(&docker_like(), "/var/lib/c1/rootfs", &policy()).unwrap();
    assert!(e.is_assessable());
    let report = assess_eval_result(&e);
    assert!(!report.unprivileged);

    let s2 = report.goal_s2.unwrap().result.unwrap();
    assert_eq!(s2.state, Criticality::Error);
    assert_eq!(s2.info, vec!["test dev_whitelist_compliance did not pass, assessment result is ERROR".to_string()]);

    let s3 = report.goal_s3.unwrap().result.unwrap();
    assert_eq!(s3.state, Criticality::Error);
    assert_eq!(s3.info, vec!["test user_ns_mapping_unique did not pass, assessment result is ERROR".to_string()]);

    let s4 = report.goal_s4.unwrap();
    assert!(s4.cgroups_namespace_used);
    let s4 = s4.result.unwrap();
    assert_eq!(s4.state, Criticality::Error);
    assert_eq!(s4.info, vec!["test cpu_max_limited did not pass, assessment result is ERROR".to_string()]);

    let s1 = report.goal_s1.unwrap();
    assert_eq!(s1.result.unwrap().state, Criticality::Error);
    assert!(s1.capabilities.contains(&Capability::CapChown));
}

#[test]
fn assessment_of_a_confined_container() {
    let mut cfg = docker_like();
    cfg.cgroup_config.as_mut().unwrap().cpu_max = Some("50000 100000".to_string());
    cfg.user_ns_config.as_mut().unwrap().unique_mapping = true;
    cfg.device_config.as_mut().unwrap().dev_devices.pop();
    let e = EvalResult::from_config(&cfg, "/var/lib/c1/rootfs", &policy()).unwrap();
    let report = assess_eval_result(&e);
    for goal in [
        report.goal_s2.unwrap().result.unwrap(),
        report.goal_s3.unwrap().result.unwrap(),
        report.goal_s4.unwrap().result.unwrap(),
    ] {
        assert_eq!(goal.state, Criticality::Okay);
        assert!(goal.info.is_empty());
    }
}

#[test]
fn criticality_order_and_names() {
    assert_eq!(Criticality::Info.max(Criticality::Warn), Criticality::Warn);
    assert_eq!(Criticality::Error.max(Criticality::Okay), Criticality::Error);
    assert_eq!(Criticality::Unspecified.max(Criticality::Okay), Criticality::Okay);
    assert_eq!(Criticality::Okay.debug_name(), "Ok");
    assert_eq!(Criticality::Warn.as_str_name(), "CRITICALITY_WARN");
    let mut r = SecResult::new();
    r.append(Criticality::Warn, &vec!["a".to_string()]);
    r.append(Criticality::Info, &vec!["b".to_string()]);
    assert_eq!(r.state, Criticality::Warn);
    assert_eq!(r.info, vec!["a".to_string(), "b".to_string()]);
}

#[test]
fn leaking_flag_files_break_goal_s3() {
    let uuid = "0b8f3d6e-1d7a-4c1e-9d55-3f2b8a8e1c11";
    let mut cfg = docker_like();
    cfg.user_ns_config.as_mut().unwrap().unique_mapping = true;
    let fs = cfg.fs_config.as_mut().unwrap();
    fs.ref_container_namespaces = vec![MountNamespace {
        ns_id: Some(NsId { st_dev: 4, st_ino: 300 }),
        ns_pids: vec![200],
        mounts: vec![],
        mountinfo: vec![],
        flag_files: vec![format!("/shared/xyz_checkc_flag_{uuid}")],
    }];
    fs.host_namespaces = vec![MountNamespace {
        ns_id: Some(NsId { st_dev: 4, st_ino: 1 }),
        ns_pids: vec![1],
        mounts: vec![],
        mountinfo: vec![],
        flag_files: vec![format!("/var/lib/c1/rootfs/xyz_checkc_flag_{uuid}"), "/tmp/xyz_checkc_flag_nouuid".to_string()],
    }];
    let e = EvalResult::from_config(&cfg, "/var/lib/c1/rootfs", &policy()).unwrap();
    let fs_cat = &e.categories.filesystem;
    assert!(fs_cat.test(TestName::FlagMatchesHost).unwrap().passed);
    let r = fs_cat.test(TestName::FlagMatchesRefcontainer).unwrap();
    assert!(!r.passed);
    assert_eq!(r.info, vec![format!("/shared/xyz_checkc_flag_{uuid}: 4:300")]);
    let s3 = assess_eval_result(&e).goal_s3.unwrap().result.unwrap();
    assert_eq!(s3.state, Criticality::Error);
    assert_eq!(s3.info, vec!["test flag_matches_refcontainer did not pass, assessment result is ERROR".to_string()]);
}

#[test]
fn more_capabilities_are_never_less_critical() {
    let chroot = Chroot { chroot: true, pivot_root: true };
    let ns = vec![NsType::Pid];
    let few = assess_capabilities(&ns, &vec![Capability::CapKill], Criticality::Okay, &chroot);
    let more = assess_capabilities(&ns, &vec![Capability::CapKill, Capability::CapSysAdmin], Criticality::Okay, &chroot);
    assert!(more.state.max(few.state) == more.state);
    assert_eq!(more.state, Criticality::Error);
    assert_eq!(&more.info[..few.info.len()], &few.info[..]);
    assert!(more.info.len() > few.info.len());
    assert_eq!(few.state, Criticality::Warn);
    let none = assess_capabilities(&ns, &vec![], Criticality::Okay, &chroot);
    assert_eq!(none.state, Criticality::Unspecified);
    assert!(none.info.is_empty());
}
