use checkc::c_config::device::{
    mknod_device, node_name_exec, sys_dev_id, unique_devices, Device, DeviceId, DeviceType, Probe,
};
use checkc::Error;

fn dev(file: &str, major: u32, minor: u32, read: bool) -> Device {
    Device {
        file: file.to_string(),
        id: Some(DeviceId { dev_type: DeviceType::Char, major, minor }),
        permissions: 0o666,
        user: 0,
        group: 0,
        read_access: read,
        write_access: false,
    }
}

#[test]
fn device_kinds_from_file_modes() {
    assert_eq!(DeviceType::from_mode(0o020666).unwrap(), DeviceType::Char);
    assert_eq!(DeviceType::from_mode(0o060660).unwrap(), DeviceType::Block);
    assert_eq!(DeviceType::from_mode(0o140777).unwrap(), DeviceType::Socket);
    assert_eq!(DeviceType::from_mode(0o010644).unwrap(), DeviceType::Fifo);
    match DeviceType::from_mode(0o120777) {
        Err(Error::ConversionFailed(m)) => assert_eq!(m, "unknown device type"),
        other => panic!("unexpected {other:?}"),
    }
    assert_eq!(DeviceType::Block.name(), "block");
}

#[test]
fn device_numbers_split_as_the_c_library_does() {
    // /dev/sda1 is 8:1; a large number mixes high and low bits.
    let id = Device::id_from_metadata("/dev/sda1", 0o060660, 0x801).unwrap();
    assert_eq!(id, DeviceId { dev_type: DeviceType::Block, major: 8, minor: 1 });
    let big = libc::makedev(0x12345, 0x6789a);
    let id = Device::id_from_metadata("/dev/x", 0o020600, big).unwrap();
    assert_eq!((id.major, id.minor), (0x12345, 0x6789a));
}

#[test]
fn regular_files_and_odd_modes_are_no_devices() {
    match Device::id_from_metadata("/dev/shm/f", 0o100644, 0) {
        Err(Error::DeviceError { path, source }) => {
            assert_eq!(path, "/dev/shm/f");
            assert!(source.is_none());
        }
        other => panic!("unexpected {other:?}"),
    }
    match Device::id_from_metadata("/dev/link", 0o120777, 0) {
        Err(Error::ValueError { msg, val, path }) => {
            assert_eq!(msg, "Unkown st_mode");
            assert_eq!(val, (0o120777u32).to_string());
            assert_eq!(path, "/dev/link");
        }
        other => panic!("unexpected {other:?}"),
    }
}

#[test]
fn device_record_from_metadata() {
    let d = Device::from_metadata("/dev/null", 0o020666, libc::makedev(1, 3), 0, 0, true, true).unwrap();
    assert_eq!(d.file, "/dev/null");
    assert_eq!(d.id, Some(DeviceId { dev_type: DeviceType::Char, major: 1, minor: 3 }));
    assert_eq!(d.permissions, 0o666);
    assert!(d.read_access && d.write_access);
}

#[test]
fn probe_names_and_order() {
    assert_eq!(node_name_exec(DeviceType::Char, 4096, 256), "char_4096_256");
    assert_eq!(node_name_exec(DeviceType::Block, 8, 0), "block_8_0");
    let p = Probe::first();
    assert_eq!((p.major, p.minor, p.block), (0, 0, false));
    let q = p.next().unwrap();
    assert_eq!((q.major, q.minor, q.block), (0, 0, true));
    let r = Probe { major: 3, minor: 256, block: true }.next().unwrap();
    assert_eq!((r.major, r.minor, r.block), (4, 0, false));
    assert!(Probe { major: 4096, minor: 256, block: true }.next().is_none());
    assert_eq!(r.id(), DeviceId { dev_type: DeviceType::Char, major: 4, minor: 0 });
}

#[test]
fn probe_walk_visits_every_node_once() {
    let mut count: u64 = 1;
    let mut p = Probe::first();
    while let Some(n) = p.next() {
        count += 1;
        p = n;
    }
    assert_eq!(count, 4097 * 257 * 2);
}

#[test]
fn created_nodes_are_kept_when_accessible() {
    let id = DeviceId { dev_type: DeviceType::Char, major: 1, minor: 3 };
    let d = mknod_device("/dev/tmp/char_1_3".to_string(), id, 0, 0, true, false).unwrap();
    assert_eq!(d.permissions, 0o700);
    assert_eq!(d.file, "/dev/tmp/char_1_3");
    assert!(mknod_device("x".to_string(), id, 0, 0, false, false).is_none());
}

#[test]
fn sys_dev_entries_give_device_numbers() {
    assert_eq!(sys_dev_id("8:16", DeviceType::Block), Some(DeviceId { dev_type: DeviceType::Block, major: 8, minor: 16 }));
    assert_eq!(sys_dev_id("8", DeviceType::Block), None);
    assert_eq!(sys_dev_id("8:x", DeviceType::Char), None);
    assert_eq!(sys_dev_id("1:2:3", DeviceType::Char), Some(DeviceId { dev_type: DeviceType::Char, major: 1, minor: 2 }));
}

#[test]
fn devices_are_kept_once() {
    let devs = vec![dev("/dev/null", 1, 3, true), dev("/dev/zero", 1, 5, true), dev("/dev/null", 1, 3, true), dev("/dev/null", 1, 3, false)];
    let u = unique_devices(&devs);
    let files: Vec<(&str, bool)> = u.iter().map(|d| (d.file.as_str(), d.read_access)).collect();
    assert_eq!(files, vec![("/dev/null", true), ("/dev/zero", true), ("/dev/null", false)]);
}
