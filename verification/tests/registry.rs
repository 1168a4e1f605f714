use hid_session::device::{BusType, DeviceDescriptor, HidDeviceListItem};
use hid_session::error::SessionError;
use hid_session::registry::{
    finish_read, finish_write, report_buffer, Acquisition, DeviceIndex, HidDeviceId, HidDeviceState,
    OpenPlan, REPORT_BUFFER_SIZE,
};

fn device(vendor_id: u16, name: &str, path: &str) -> DeviceDescriptor {
    DeviceDescriptor {
        vendor_id,
        product_id: 0x10,
        usage: 6,
        usage_page: 1,
        product_string: name.to_string(),
        bus_type: BusType::Usb,
        path: path.to_string(),
    }
}

fn acquired(device: u32, reader: u32, descriptor: &[u8]) -> Acquisition<u32> {
    Acquisition::Acquired { device, reader, descriptor: descriptor.to_vec() }
}

fn id(path: &str, report_id: u8) -> HidDeviceId {
    HidDeviceId { path: path.to_string(), report_id }
}

/// Registers a live session for `path` and returns its generation.
fn open(state: &mut HidDeviceState<u32>, path: &str, device: u32, reader: u32, descriptor: &[u8]) -> u64 {
    let opened = state.finish_open(path.to_string(), acquired(device, reader, descriptor)).unwrap();
    opened.read_loop.unwrap().generation()
}

#[test]
fn new_registry_is_empty() {
    let state: HidDeviceState<u32> = HidDeviceState::new();
    assert!(!state.is_open(&"/dev/hidraw0".to_string()));
    assert_eq!(
        state.hid_open_device(DeviceIndex { enumeration: 0, position: 0 }),
        Err(SessionError::IndexOutOfRange)
    );
}

#[test]
fn enumeration_lists_devices_and_replaces_the_index() {
    let mut state: HidDeviceState<u32> = HidDeviceState::new();
    let list = state.hid_get_devices(&vec![device(1, "a", "/dev/hidraw0"), device(2, "b", "/dev/hidraw1")]);
    assert_eq!(list.enumeration, 1);
    assert_eq!(
        list.devices,
        vec![
            HidDeviceListItem { name: "a".to_string(), vid: 1, pid: 0x10, opened: false, usage: 6, usage_page: 1 },
            HidDeviceListItem { name: "b".to_string(), vid: 2, pid: 0x10, opened: false, usage: 6, usage_page: 1 },
        ]
    );
    assert_eq!(
        state.hid_open_device(DeviceIndex { enumeration: 1, position: 1 }),
        Ok(OpenPlan::Acquire("/dev/hidraw1".to_string()))
    );
    let list = state.hid_get_devices(&vec![device(3, "c", "/dev/hidraw2")]);
    assert_eq!(list.enumeration, 2);
    assert_eq!(list.devices.len(), 1);
    assert_eq!(
        state.hid_open_device(DeviceIndex { enumeration: 2, position: 0 }),
        Ok(OpenPlan::Acquire("/dev/hidraw2".to_string()))
    );
    assert_eq!(
        state.hid_open_device(DeviceIndex { enumeration: 2, position: 1 }),
        Err(SessionError::IndexOutOfRange)
    );
}

#[test]
fn enumeration_reports_live_sessions_as_opened() {
    let mut state: HidDeviceState<u32> = HidDeviceState::new();
    open(&mut state, "/dev/hidraw1", 10, 11, &[]);
    let list = state.hid_get_devices(&vec![device(1, "a", "/dev/hidraw0"), device(2, "b", "/dev/hidraw1")]);
    assert!(!list.devices[0].opened);
    assert!(list.devices[1].opened);
    // Enumerating opens nothing and closes nothing.
    assert!(!state.is_open(&"/dev/hidraw0".to_string()));
    assert!(state.is_open(&"/dev/hidraw1".to_string()));
}

#[test]
fn enumeration_reports_dead_sessions_as_not_opened() {
    let mut state: HidDeviceState<u32> = HidDeviceState::new();
    let generation = open(&mut state, "/dev/hidraw0", 10, 11, &[]);
    state.end_session(&"/dev/hidraw0".to_string(), generation);
    let list = state.hid_get_devices(&vec![device(1, "a", "/dev/hidraw0")]);
    assert!(!list.devices[0].opened);
}

#[test]
fn index_out_of_range_is_refused() {
    let mut state: HidDeviceState<u32> = HidDeviceState::new();
    let list = state.hid_get_devices(&vec![device(1, "a", "/dev/hidraw0"), device(2, "b", "/dev/hidraw1")]);
    let e = list.enumeration;
    assert_eq!(
        state.hid_open_device(DeviceIndex { enumeration: e, position: 2 }),
        Err(SessionError::IndexOutOfRange)
    );
    assert_eq!(
        state.hid_open_device(DeviceIndex { enumeration: e, position: usize::MAX }),
        Err(SessionError::IndexOutOfRange)
    );
    assert_eq!(
        state.hid_open_device(DeviceIndex { enumeration: e, position: 0 }),
        Ok(OpenPlan::Acquire("/dev/hidraw0".to_string()))
    );
}

#[test]
fn stale_index_is_refused_after_a_newer_enumeration() {
    let mut state: HidDeviceState<u32> = HidDeviceState::new();
    let devices = vec![device(1, "a", "/dev/hidraw0"), device(2, "b", "/dev/hidraw1")];
    let old = state.hid_get_devices(&devices).enumeration;
    let stale = DeviceIndex { enumeration: old, position: 1 };
    assert_eq!(state.hid_open_device(stale), Ok(OpenPlan::Acquire("/dev/hidraw1".to_string())));
    // Same devices, same count: the old reference is refused all the same.
    let new = state.hid_get_devices(&devices).enumeration;
    assert_ne!(old, new);
    assert_eq!(state.hid_open_device(stale), Err(SessionError::IndexOutOfRange));
    assert_eq!(
        state.hid_open_device(DeviceIndex { enumeration: new, position: 1 }),
        Ok(OpenPlan::Acquire("/dev/hidraw1".to_string()))
    );
    // A shifted order is not silently followed either.
    let shifted = vec![device(2, "b", "/dev/hidraw1"), device(1, "a", "/dev/hidraw0")];
    let newest = state.hid_get_devices(&shifted).enumeration;
    assert_eq!(
        state.hid_open_device(DeviceIndex { enumeration: new, position: 1 }),
        Err(SessionError::IndexOutOfRange)
    );
    assert_eq!(
        state.hid_open_device(DeviceIndex { enumeration: newest, position: 1 }),
        Ok(OpenPlan::Acquire("/dev/hidraw0".to_string()))
    );
}

#[test]
fn index_of_a_future_enumeration_is_refused() {
    let mut state: HidDeviceState<u32> = HidDeviceState::new();
    let e = state.hid_get_devices(&vec![device(1, "a", "/dev/hidraw0")]).enumeration;
    assert_eq!(
        state.hid_open_device(DeviceIndex { enumeration: e + 1, position: 0 }),
        Err(SessionError::IndexOutOfRange)
    );
}

#[test]
fn open_registers_a_session_with_the_parsed_report_id() {
    let mut state: HidDeviceState<u32> = HidDeviceState::new();
    let path = "/dev/hidraw0".to_string();
    assert_eq!(state.hid_open_path(&path), OpenPlan::Acquire(path.clone()));
    let opened = state
        .finish_open(path.clone(), acquired(10, 11, &[0x05, 0x01, 0x85, 0x03, 0x95, 0x01]))
        .unwrap();
    assert_eq!(opened.id, id("/dev/hidraw0", 3));
    assert!(opened.released.is_empty());
    let task = opened.read_loop.unwrap();
    assert_eq!(task.path(), "/dev/hidraw0");
    assert_eq!(task.generation(), 0);
    assert!(task.is_running());
    assert!(state.is_open(&path));
    assert_eq!(state.hid_write(&path), Ok(&10));
    assert_eq!(state.reader_handle(&path, 0), Some(&11));
    assert!(state.reader_may_run(&path, 0));
}

#[test]
fn open_is_idempotent_for_a_live_path() {
    let mut state: HidDeviceState<u32> = HidDeviceState::new();
    let e = state.hid_get_devices(&vec![device(1, "a", "/dev/hidraw0"), device(2, "b", "/dev/hidraw1")]).enumeration;
    let index = DeviceIndex { enumeration: e, position: 1 };
    assert_eq!(state.hid_open_device(index), Ok(OpenPlan::Acquire("/dev/hidraw1".to_string())));
    let first = state.finish_open("/dev/hidraw1".to_string(), acquired(10, 11, &[0x85, 0x04])).unwrap();
    assert_eq!(first.id, id("/dev/hidraw1", 4));
    // The second open is answered from the registry and asks for no handle.
    assert_eq!(state.hid_open_device(index), Ok(OpenPlan::AlreadyOpen(id("/dev/hidraw1", 4))));
    assert_eq!(state.hid_open_path(&"/dev/hidraw1".to_string()), OpenPlan::AlreadyOpen(id("/dev/hidraw1", 4)));
    assert_eq!(state.hid_write(&"/dev/hidraw1".to_string()), Ok(&10));
}

#[test]
fn completing_an_open_of_a_live_path_keeps_the_session() {
    let mut state: HidDeviceState<u32> = HidDeviceState::new();
    let path = "/dev/hidraw0".to_string();
    open(&mut state, "/dev/hidraw0", 10, 11, &[0x85, 0x04]);
    // Handles acquired in a race are handed back; the session is untouched.
    let second = state.finish_open(path.clone(), acquired(20, 21, &[0x85, 0x09])).unwrap();
    assert_eq!(second.id, id("/dev/hidraw0", 4));
    assert!(second.read_loop.is_none());
    assert_eq!(second.released, vec![20, 21]);
    assert_eq!(state.hid_write(&path), Ok(&10));
    assert_eq!(state.reader_handle(&path, 0), Some(&11));
    assert!(state.reader_may_run(&path, 0));
}

#[test]
fn failed_open_reports_the_diagnostic_and_changes_nothing() {
    let mut state: HidDeviceState<u32> = HidDeviceState::new();
    let path = "/dev/hidraw0".to_string();
    let r = state.finish_open(path.clone(), Acquisition::OpenFailed("no such device".to_string()));
    match r {
        Err(e) => {
            assert_eq!(e, SessionError::DeviceOpenFailed("no such device".to_string()));
            assert_eq!(e.diagnostic(), Some(&"no such device".to_string()));
        }
        Ok(_) => panic!("open must fail"),
    }
    assert!(!state.is_open(&path));
    assert_eq!(state.hid_open_path(&path), OpenPlan::Acquire(path.clone()));
    assert_eq!(state.hid_write(&path), Err(SessionError::NotOpen));
}

#[test]
fn failed_descriptor_fetch_is_an_io_error() {
    let mut state: HidDeviceState<u32> = HidDeviceState::new();
    let path = "/dev/hidraw0".to_string();
    let r = state.finish_open(path.clone(), Acquisition::DescriptorFailed("EIO".to_string()));
    match r {
        Err(e) => assert_eq!(e, SessionError::IoError("EIO".to_string())),
        Ok(_) => panic!("open must fail"),
    }
    assert!(!state.is_open(&path));
}

#[test]
fn failed_open_leaves_other_sessions_alone() {
    let mut state: HidDeviceState<u32> = HidDeviceState::new();
    open(&mut state, "/dev/hidraw0", 10, 11, &[0x85, 0x01]);
    assert!(state.finish_open("/dev/hidraw1".to_string(), Acquisition::OpenFailed("x".to_string())).is_err());
    assert!(state.finish_open("/dev/hidraw0".to_string(), Acquisition::OpenFailed("x".to_string())).is_err());
    assert_eq!(state.hid_open_path(&"/dev/hidraw0".to_string()), OpenPlan::AlreadyOpen(id("/dev/hidraw0", 1)));
    assert!(!state.is_open(&"/dev/hidraw1".to_string()));
}

#[test]
fn distinct_paths_have_independent_sessions() {
    let mut state: HidDeviceState<u32> = HidDeviceState::new();
    open(&mut state, "/dev/hidraw0", 10, 11, &[0x85, 0x01]);
    open(&mut state, "/dev/hidraw1", 20, 21, &[0x85, 0x02]);
    assert_eq!(state.hid_write(&"/dev/hidraw0".to_string()), Ok(&10));
    assert_eq!(state.hid_write(&"/dev/hidraw1".to_string()), Ok(&20));
    assert_eq!(state.hid_open_path(&"/dev/hidraw0".to_string()), OpenPlan::AlreadyOpen(id("/dev/hidraw0", 1)));
    assert_eq!(state.hid_open_path(&"/dev/hidraw1".to_string()), OpenPlan::AlreadyOpen(id("/dev/hidraw1", 2)));
    state.end_session(&"/dev/hidraw0".to_string(), 0);
    assert!(!state.is_open(&"/dev/hidraw0".to_string()));
    assert!(state.is_open(&"/dev/hidraw1".to_string()));
}

#[test]
fn write_and_read_on_unopened_path_fail_with_not_open() {
    let mut state: HidDeviceState<u32> = HidDeviceState::new();
    let e = state.hid_get_devices(&vec![device(1, "a", "/dev/hidraw0")]).enumeration;
    let path = "/dev/hidraw0".to_string();
    assert_eq!(state.hid_write(&path), Err(SessionError::NotOpen));
    assert!(matches!(state.hid_read(&id("/dev/hidraw0", 0)), Err(SessionError::NotOpen)));
    assert_eq!(SessionError::NotOpen.diagnostic(), None);
    // The registry is as before: the path is still closed and the index stands.
    assert!(!state.is_open(&path));
    assert_eq!(
        state.hid_open_device(DeviceIndex { enumeration: e, position: 0 }),
        Ok(OpenPlan::Acquire(path.clone()))
    );
}

#[test]
fn write_and_read_on_dead_session_fail_with_not_open() {
    let mut state: HidDeviceState<u32> = HidDeviceState::new();
    let generation = open(&mut state, "/dev/hidraw0", 10, 11, &[]);
    state.end_session(&"/dev/hidraw0".to_string(), generation);
    assert_eq!(state.hid_write(&"/dev/hidraw0".to_string()), Err(SessionError::NotOpen));
    assert!(matches!(state.hid_read(&id("/dev/hidraw0", 0)), Err(SessionError::NotOpen)));
}

#[test]
fn read_supplies_handle_and_zeroed_buffer() {
    let mut state: HidDeviceState<u32> = HidDeviceState::new();
    open(&mut state, "/dev/hidraw0", 10, 11, &[]);
    let (handle, buffer) = state.hid_read(&id("/dev/hidraw0", 0)).unwrap();
    assert_eq!(*handle, 10);
    assert_eq!(buffer, vec![0u8; 65]);
    assert_eq!(REPORT_BUFFER_SIZE, 65);
    assert_eq!(report_buffer(), vec![0u8; 65]);
}

#[test]
fn finished_read_returns_exactly_the_produced_bytes() {
    let mut buf = report_buffer();
    buf[0] = 1;
    buf[1] = 2;
    buf[2] = 3;
    assert_eq!(finish_read(&buf, Ok(3)), Ok(vec![1, 2, 3]));
    assert_eq!(finish_read(&buf, Ok(0)), Ok(Vec::new()));
    assert_eq!(finish_read(&buf, Ok(65)), Ok(buf.clone()));
    // A count beyond the buffer cannot name more than the buffer holds.
    assert_eq!(finish_read(&buf, Ok(66)), Ok(buf.clone()));
    assert_eq!(finish_read(&[9, 8], Ok(1)), Ok(vec![9]));
}

#[test]
fn failed_read_is_an_io_error() {
    let buf = report_buffer();
    assert_eq!(
        finish_read(&buf, Err("device disconnected".to_string())),
        Err(SessionError::IoError("device disconnected".to_string()))
    );
}

#[test]
fn finished_write_maps_the_platform_outcome() {
    assert_eq!(finish_write(Ok(17)), Ok(()));
    assert_eq!(finish_write(Ok(0)), Ok(()));
    let r = finish_write(Err("broken pipe".to_string()));
    assert_eq!(r, Err(SessionError::IoError("broken pipe".to_string())));
    assert_eq!(r.unwrap_err().diagnostic(), Some(&"broken pipe".to_string()));
}

#[test]
fn dead_session_is_replaced_whole_by_the_next_open() {
    let mut state: HidDeviceState<u32> = HidDeviceState::new();
    let path = "/dev/hidraw0".to_string();
    let first = open(&mut state, "/dev/hidraw0", 10, 11, &[0x85, 0x01]);
    assert_eq!(first, 0);
    state.end_session(&path, first);
    assert_eq!(state.hid_open_path(&path), OpenPlan::Acquire(path.clone()));
    let opened = state.finish_open(path.clone(), acquired(20, 21, &[0x85, 0x02])).unwrap();
    assert_eq!(opened.id, id("/dev/hidraw0", 2));
    // Both handles of the dead session are released together.
    assert_eq!(opened.released, vec![10, 11]);
    let task = opened.read_loop.unwrap();
    assert_eq!(task.generation(), 1);
    assert_eq!(state.hid_write(&path), Ok(&20));
    assert_eq!(state.reader_handle(&path, 1), Some(&21));
    assert_eq!(state.reader_handle(&path, 0), None);
    assert!(state.reader_may_run(&path, 1));
    assert!(!state.reader_may_run(&path, 0));
}

#[test]
fn ending_an_outdated_reader_leaves_the_new_session_alone() {
    let mut state: HidDeviceState<u32> = HidDeviceState::new();
    let path = "/dev/hidraw0".to_string();
    let first = open(&mut state, "/dev/hidraw0", 10, 11, &[]);
    state.end_session(&path, first);
    let second = open(&mut state, "/dev/hidraw0", 20, 21, &[]);
    assert_ne!(first, second);
    state.end_session(&path, first);
    assert!(state.is_open(&path));
    state.end_session(&"other".to_string(), second);
    assert!(state.is_open(&path));
    state.end_session(&path, second);
    assert!(!state.is_open(&path));
    // Ending twice is harmless.
    state.end_session(&path, second);
    assert!(!state.is_open(&path));
    assert_eq!(state.reader_handle(&path, second), Some(&21));
}

#[test]
fn generations_count_the_sessions_of_a_path() {
    let mut state: HidDeviceState<u32> = HidDeviceState::new();
    for expected in 0..5u64 {
        let generation = open(&mut state, "/dev/hidraw0", 1, 2, &[]);
        assert_eq!(generation, expected);
        state.end_session(&"/dev/hidraw0".to_string(), generation);
    }
    assert_eq!(open(&mut state, "/dev/hidraw1", 1, 2, &[]), 0);
}

#[test]
fn open_without_report_id_item_has_report_id_zero() {
    let mut state: HidDeviceState<u32> = HidDeviceState::new();
    let opened = state.finish_open("/dev/hidraw0".to_string(), acquired(1, 2, &[0x05, 0x01, 0x09, 0x06])).unwrap();
    assert_eq!(opened.id, id("/dev/hidraw0", 0));
    let opened = state.finish_open("/dev/hidraw1".to_string(), acquired(1, 2, &[0x05, 0x01, 0x85])).unwrap();
    assert_eq!(opened.id, id("/dev/hidraw1", 0));
}

#[test]
fn opens_of_distinct_paths_commute() {
    let a = "/dev/hidraw0";
    let b = "/dev/hidraw1";
    let mut one: HidDeviceState<u32> = HidDeviceState::new();
    let first = one.finish_open(a.to_string(), acquired(10, 11, &[0x85, 0x01])).unwrap();
    let second = one.finish_open(b.to_string(), acquired(20, 21, &[0x85, 0x02])).unwrap();
    let mut other: HidDeviceState<u32> = HidDeviceState::new();
    let second_first = other.finish_open(b.to_string(), acquired(20, 21, &[0x85, 0x02])).unwrap();
    let first_second = other.finish_open(a.to_string(), acquired(10, 11, &[0x85, 0x01])).unwrap();
    assert_eq!(first.id, first_second.id);
    assert_eq!(second.id, second_first.id);
    assert!(first.read_loop.is_some() && second.read_loop.is_some());
    assert!(first_second.read_loop.is_some() && second_first.read_loop.is_some());
    for state in [&one, &other] {
        assert_eq!(state.hid_open_path(&a.to_string()), OpenPlan::AlreadyOpen(id(a, 1)));
        assert_eq!(state.hid_open_path(&b.to_string()), OpenPlan::AlreadyOpen(id(b, 2)));
        assert_eq!(state.hid_write(&a.to_string()), Ok(&10));
        assert_eq!(state.hid_write(&b.to_string()), Ok(&20));
        assert_eq!(state.reader_handle(&a.to_string(), 0), Some(&11));
        assert_eq!(state.reader_handle(&b.to_string(), 0), Some(&21));
    }
}
