use music_jam_app::devices::{builtin_devices, device_pairs, unique_devices, AudioDevice, DeviceKind, DeviceSession};
use music_jam_app::error::{DeviceError, ErrorKind};

fn device(id: &str, name: &str, kind: DeviceKind) -> AudioDevice {
    AudioDevice { id: id.to_string(), name: name.to_string(), kind }
}

fn pairs_of(listing: &Vec<AudioDevice>) -> Vec<(String, String)> {
    device_pairs(listing)
}

#[test]
fn builtin_listing_pairs() {
    let pairs = pairs_of(&builtin_devices());
    assert_eq!(
        pairs,
        vec![
            ("input1".to_string(), "Built-in Microphone".to_string()),
            ("output1".to_string(), "Built-in Speakers".to_string()),
        ]
    );
    let kinds: Vec<DeviceKind> = builtin_devices().iter().map(|d| d.kind).collect();
    assert_eq!(kinds, vec![DeviceKind::Input, DeviceKind::Output]);
}

#[test]
fn repeated_devices_dropped_in_host_order() {
    let raw = vec![
        device("out-a", "Speakers", DeviceKind::Output),
        device("mic", "Mic", DeviceKind::Input),
        device("out-a", "Speakers (again)", DeviceKind::Output),
        device("mic", "Mic as output", DeviceKind::Output),
        device("out-b", "Headphones", DeviceKind::Output),
    ];
    let kept = unique_devices(&raw);
    assert_eq!(
        pairs_of(&kept),
        vec![
            ("out-a".to_string(), "Speakers".to_string()),
            ("mic".to_string(), "Mic".to_string()),
            ("mic".to_string(), "Mic as output".to_string()),
            ("out-b".to_string(), "Headphones".to_string()),
        ]
    );
    assert!(unique_devices(&Vec::new()).is_empty());
}

#[test]
fn listing_twice_gives_same_ids() {
    let mut session = DeviceSession::new();
    session.record_listing(Ok(builtin_devices())).unwrap();
    let first = pairs_of(session.listing());
    session.record_listing(Ok(builtin_devices())).unwrap();
    let second = pairs_of(session.listing());
    assert_eq!(first, second);
    assert_eq!(first.len(), 2);
}

#[test]
fn unknown_device_scenario() {
    let mut session = DeviceSession::new();
    session.record_listing(Ok(builtin_devices())).unwrap();
    let before = pairs_of(session.listing());
    let id = "nonexistent-id".to_string();
    let checked = session.check_output(&id);
    assert!(matches!(checked, Err(DeviceError::UnknownDevice)));
    let applied = session.apply_switch(&id, Ok(()));
    let e = applied.unwrap_err();
    assert!(matches!(e, DeviceError::UnknownDevice));
    assert_eq!(e.kind(), ErrorKind::InputValidation);
    assert_eq!(e.message(), "unknown output device");
    assert_eq!(session.active_output(), None);
    session.record_listing(Ok(builtin_devices())).unwrap();
    assert_eq!(before, pairs_of(session.listing()));
}

#[test]
fn unknown_device_keeps_active_output() {
    let mut session = DeviceSession::new();
    session.record_listing(Ok(builtin_devices())).unwrap();
    session.apply_switch(&"output1".to_string(), Ok(())).unwrap();
    assert!(session.apply_switch(&"input1".to_string(), Ok(())).is_err());
    assert!(session.apply_switch(&"output2".to_string(), Ok(())).is_err());
    assert_eq!(session.active_output(), Some("output1".to_string()));
}

#[test]
fn switch_to_listed_output() {
    let mut session = DeviceSession::new();
    assert!(session.check_output(&"output1".to_string()).is_err());
    session.record_listing(Ok(builtin_devices())).unwrap();
    assert!(session.check_output(&"output1".to_string()).is_ok());
    assert!(session.check_output(&"input1".to_string()).is_err());
    assert!(session.apply_switch(&"output1".to_string(), Ok(())).is_ok());
    assert_eq!(session.active_output(), Some("output1".to_string()));
}

#[test]
fn failed_switch_keeps_state() {
    let mut session = DeviceSession::new();
    session.record_listing(Ok(builtin_devices())).unwrap();
    let e = session.apply_switch(&"output1".to_string(), Err("device unplugged".to_string())).unwrap_err();
    assert!(matches!(e, DeviceError::SwitchFailed(_)));
    assert_eq!(e.kind(), ErrorKind::HostApiFailure);
    assert_eq!(e.message(), "could not switch the output device: device unplugged");
    assert_eq!(session.active_output(), None);
}

#[test]
fn failed_query_reported_and_listing_kept() {
    let mut session = DeviceSession::new();
    session.record_listing(Ok(builtin_devices())).unwrap();
    let e = session.record_listing(Err("microphone access denied".to_string())).unwrap_err();
    assert_eq!(e.kind(), ErrorKind::ResourceUnavailable);
    assert_eq!(e.message(), "could not query audio devices: microphone access denied");
    assert_eq!(session.listing().len(), 2);
    assert!(session.check_output(&"output1".to_string()).is_ok());
}

#[test]
fn new_listing_replaces_old() {
    let mut session = DeviceSession::new();
    session.record_listing(Ok(builtin_devices())).unwrap();
    let usb = vec![device("usb-1", "USB Interface", DeviceKind::Output)];
    session.record_listing(Ok(usb)).unwrap();
    assert!(session.check_output(&"output1".to_string()).is_err());
    assert!(session.apply_switch(&"usb-1".to_string(), Ok(())).is_ok());
    assert_eq!(session.active_output(), Some("usb-1".to_string()));
}
