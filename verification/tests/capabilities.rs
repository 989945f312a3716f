use checkc::c_config::caps::{caps_config_from_status, caps_from_mask, decode_status_line, status_has_all_sets, CapSet, Capability};
use checkc::config::cap_sec::CapabilityRecord;
use checkc::evaluation::capability_is_set;
use checkc::Error;
use checkc::assessment::Criticality;
use checkc::c_config::NsType;

#[test]
fn capability_numbers_run_from_first_to_last() {
    assert_eq!(Capability::first(), 0);
    assert_eq!(Capability::last(), 40);
    assert_eq!(Capability::from_i32(1), Some(Capability::CapChown));
    assert_eq!(Capability::from_i32(41), Some(Capability::CapCheckpointRestore));
    assert_eq!(Capability::from_i32(42), None);
    assert_eq!(Capability::CapSysAdmin.to_i32(), 22);
    assert_eq!(Capability::CapSysAdmin.name(), "CAP_SYS_ADMIN");
}

#[test]
fn default_container_mask_decodes_to_fourteen_capabilities() {
    let caps = caps_from_mask(0xa80425fb);
    assert_eq!(
        caps,
        vec![
            Capability::CapChown,
            Capability::CapDacOverride,
            Capability::CapFowner,
            Capability::CapFsetid,
            Capability::CapKill,
            Capability::CapSetgid,
            Capability::CapSetuid,
            Capability::CapSetpcap,
            Capability::CapNetBindService,
            Capability::CapNetRaw,
            Capability::CapSysChroot,
            Capability::CapMknod,
            Capability::CapAuditWrite,
            Capability::CapSetfcap,
        ]
    );
    assert!(caps_from_mask(0).is_empty());
    assert_eq!(caps_from_mask(u64::MAX).len(), 41);
}

#[test]
fn status_lines_decode_their_last_field() {
    assert_eq!(decode_status_line("CapEff:\t0000000000000001").unwrap(), vec![Capability::CapChown]);
    match decode_status_line("CapEff:\tzz") {
        Err(Error::ConversionFailed(m)) => assert_eq!(m, "invalid digit found in string"),
        other => panic!("unexpected {other:?}"),
    }
}

fn status(prm: &str) -> Vec<String> {
    vec![
        "Name:\tsh".to_string(),
        "CapInh:\t0000000000000000".to_string(),
        format!("CapPrm:\t{prm}"),
        "CapEff:\t00000000a80425fb".to_string(),
        "CapBnd:\t00000000a80425fb".to_string(),
        "CapAmb:\t0000000000000000".to_string(),
    ]
}

#[test]
fn capability_sets_of_a_status_file() {
    let lines = status("0000000000200000");
    assert!(status_has_all_sets(&lines));
    let cfg = caps_config_from_status(&lines).unwrap();
    assert!(cfg.cap_inh.is_empty());
    assert_eq!(cfg.cap_prm, vec![Capability::CapSysAdmin]);
    assert_eq!(cfg.cap_eff.len(), 14);
    assert!(cfg.cap_amb.is_empty());
    assert!(!status_has_all_sets(&lines[..3].to_vec()));
    assert!(caps_config_from_status(&status("xyz")).is_err());
}

#[test]
fn capability_set_names_and_order() {
    let names: Vec<&str> = CapSet::list().iter().map(|s| s.name()).collect();
    assert_eq!(names, vec!["CapInh", "CapPrm", "CapEff", "CapBnd", "CapAmb"]);
}

#[test]
fn capability_membership() {
    let set = [Capability::CapKill, Capability::CapMknod];
    assert!(capability_is_set(&set, Capability::CapMknod));
    assert!(!capability_is_set(&set, Capability::CapSysAdmin));
    assert!(!capability_is_set(&[], Capability::CapKill));
}

#[test]
fn capability_policy_table() {
    let r = CapabilityRecord::for_capability(Capability::CapSysAdmin).unwrap();
    assert_eq!(r.ok(), &vec![NsType::User]);
    assert!(r.warn().is_empty());
    assert_eq!(r.default(), Criticality::Error);
    assert_eq!(r.notes(), "Overloaded Capability, defacto root");
    let kill = CapabilityRecord::for_capability(Capability::CapKill).unwrap();
    assert_eq!(kill.warn(), &vec![NsType::Pid]);
    assert!(CapabilityRecord::for_capability(Capability::Unspecified).is_none());
}

#[test]
fn capability_numbers_decode_to_their_capability() {
    for v in 0..=41 {
        let c = Capability::from_i32(v).unwrap();
        assert_eq!(c.to_i32(), v);
        assert_eq!(Capability::from_i32(c.to_i32()), Some(c));
    }
    assert_eq!(Capability::from_i32(-1), None);
}
