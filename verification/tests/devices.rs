use xdbm::devices::{find_device, get_device, is_valid_name, register_device, Device};
use xdbm::error::Error;

#[test]
fn get_name() {
    let device = Device::new("test".to_string());
    assert_eq!("test".to_string(), device.name());
}

#[test]
fn device_from_parts_fills_unknown() {
    let device = Device::from_parts("dev".to_string(), Some("Linux".to_string()), None, None);
    assert_eq!(device.name(), "dev");
    assert_eq!(device.os_name(), "Linux");
    assert_eq!(device.os_version(), "unknown");
    assert_eq!(device.hostname(), "unknown");
}

#[test]
fn get_device_picks_the_named_one() {
    let devices = vec![
        Device::from_parts("a".to_string(), None, None, Some("host_a".to_string())),
        Device::from_parts("b".to_string(), None, None, Some("host_b".to_string())),
        Device::from_parts("b".to_string(), None, None, Some("second_b".to_string())),
    ];
    assert_eq!(find_device(&devices, &"b".to_string()), Some(1));
    assert_eq!(find_device(&devices, &"c".to_string()), None);
    let found = get_device(&"b".to_string(), devices.clone()).unwrap();
    assert_eq!(found.hostname(), "host_b");
    assert_eq!(get_device(&"zzz".to_string(), devices).unwrap_err(), Error::NotFound);
}

#[test]
fn registering_devices() {
    let first = Device::from_parts("first".to_string(), None, None, None);
    let second = Device::from_parts("second".to_string(), None, None, None);
    let devices = register_device(vec![], first.clone()).unwrap();
    assert_eq!(devices.len(), 1);
    let devices = register_device(devices, second).unwrap();
    assert_eq!(devices.len(), 2);
    assert_eq!(devices[0].name(), "first");
    assert_eq!(devices[1].name(), "second");
    assert_eq!(register_device(devices.clone(), first).unwrap_err(), Error::NameConflict);
    assert!(is_valid_name(&"a".to_string()));
    assert!(!is_valid_name(&"".to_string()));
    let nameless = Device::from_parts("".to_string(), None, None, None);
    assert_eq!(register_device(devices, nameless).unwrap_err(), Error::EmptyName);
}
