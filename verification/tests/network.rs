use serial_manager::mdns::{browse_interval_secs, comes_before, first_address_of, service_name,
    MdnsDevice, MdnsDiscovery, RecordKind, Response};

fn response(hostname: Option<&str>, port: Option<u16>, records: Vec<RecordKind>) -> Response {
    Response { hostname: hostname.map(|h| h.to_string()), port, records }
}

fn shown(devices: &[MdnsDevice]) -> Vec<(String, String, Option<u16>)> {
    devices.iter().map(|d| (d.name.clone(), d.ip.clone(), d.port)).collect()
}

#[test]
fn service_name_ends_with_local() {
    assert_eq!(service_name("_http._tcp".to_string()), "_http._tcp.local");
    assert_eq!(service_name("_http._tcp.local".to_string()), "_http._tcp.local");
    assert_eq!(service_name("".to_string()), ".local");
    assert_eq!(service_name(".local".to_string()), ".local");
    assert_eq!(service_name("local".to_string()), "local.local");
    assert_eq!(service_name("x.local.".to_string()), "x.local..local");
}

#[test]
fn launch_names_the_service_and_sees_nothing_yet() {
    let mut discovery = MdnsDiscovery::new();
    assert_eq!(discovery.launch("_http._tcp".to_string()), "_http._tcp.local");
    assert!(discovery.get_devices().is_empty());
}

#[test]
fn first_address_record_gives_the_address() {
    let records = vec![
        RecordKind::Other,
        RecordKind::AAAA("fe80::1".to_string()),
        RecordKind::A("10.0.0.7".to_string()),
    ];
    assert_eq!(first_address_of(&records), Some("fe80::1".to_string()));
    assert_eq!(first_address_of(&vec![RecordKind::Other, RecordKind::Other]), None);
    assert_eq!(first_address_of(&Vec::new()), None);
    assert_eq!(
        first_address_of(&vec![RecordKind::A("10.0.0.7".to_string())]),
        Some("10.0.0.7".to_string())
    );
}

#[test]
fn device_seen_twice_is_kept_once() {
    let mut discovery = MdnsDiscovery::new();
    let seen = discovery.observe(response(
        Some("scope.local"),
        Some(80),
        vec![RecordKind::Other, RecordKind::A("10.0.0.7".to_string())],
    ));
    assert!(seen);
    let again = discovery.observe(response(
        Some("scope.local"),
        Some(8080),
        vec![RecordKind::A("10.0.0.7".to_string())],
    ));
    assert!(!again);
    assert_eq!(
        shown(&discovery.get_devices()),
        vec![("scope.local".to_string(), "10.0.0.7".to_string(), Some(80))]
    );
    assert!(discovery.knows("scope.local", "10.0.0.7"));
    assert!(!discovery.knows("scope.local", "10.0.0.8"));
}

#[test]
fn same_name_at_another_address_is_another_device() {
    let mut discovery = MdnsDiscovery::new();
    assert!(discovery.observe(response(
        Some("scope.local"),
        None,
        vec![RecordKind::A("10.0.0.7".to_string())],
    )));
    assert!(discovery.observe(response(
        Some("scope.local"),
        None,
        vec![RecordKind::AAAA("fe80::1".to_string())],
    )));
    assert!(discovery.observe(response(
        Some("probe.local"),
        Some(443),
        vec![RecordKind::A("10.0.0.7".to_string())],
    )));
    assert_eq!(
        shown(&discovery.get_devices()),
        vec![
            ("probe.local".to_string(), "10.0.0.7".to_string(), Some(443)),
            ("scope.local".to_string(), "10.0.0.7".to_string(), None),
            ("scope.local".to_string(), "fe80::1".to_string(), None),
        ]
    );
}

#[test]
fn devices_are_listed_by_name_then_address() {
    let mut discovery = MdnsDiscovery::new();
    for (name, ip) in [
        ("b.local", "10.0.0.2"),
        ("a.local", "10.0.0.9"),
        ("c.local", "10.0.0.3"),
        ("a.local", "10.0.0.1"),
        ("b.local", "10.0.0.2"),
        ("a.local", "10.0.0.10"),
    ] {
        discovery.observe(response(Some(name), None, vec![RecordKind::A(ip.to_string())]));
    }
    let listed = discovery.get_devices();
    assert_eq!(
        shown(&listed),
        vec![
            ("a.local".to_string(), "10.0.0.1".to_string(), None),
            ("a.local".to_string(), "10.0.0.10".to_string(), None),
            ("a.local".to_string(), "10.0.0.9".to_string(), None),
            ("b.local".to_string(), "10.0.0.2".to_string(), None),
            ("c.local".to_string(), "10.0.0.3".to_string(), None),
        ]
    );
    let mut sorted = shown(&listed);
    sorted.sort();
    assert_eq!(shown(&listed), sorted);
    assert_eq!(shown(&discovery.get_devices()), sorted);
    assert!(comes_before(&listed[0], &listed[1]));
    assert!(comes_before(&listed[2], &listed[3]));
    assert!(!comes_before(&listed[3], &listed[2]));
    assert!(!comes_before(&listed[3], &listed[3]));
}

#[test]
fn unreadable_response_is_passed_over() {
    let mut discovery = MdnsDiscovery::new();
    assert!(discovery.take(Ok(response(
        Some("scope.local"),
        Some(80),
        vec![RecordKind::A("10.0.0.7".to_string())],
    ))));
    assert!(discovery.take(Err("truncated packet".to_string())));
    assert_eq!(discovery.get_devices().len(), 1);
    assert!(discovery.take(Ok(response(
        Some("probe.local"),
        None,
        vec![RecordKind::AAAA("fe80::2".to_string())],
    ))));
    assert!(discovery.take(Ok(response(Some("lost.local"), None, Vec::new()))));
    assert_eq!(
        shown(&discovery.get_devices()),
        vec![
            ("probe.local".to_string(), "fe80::2".to_string(), None),
            ("scope.local".to_string(), "10.0.0.7".to_string(), Some(80)),
        ]
    );
}

#[test]
fn browse_requests_are_five_seconds_apart() {
    assert_eq!(browse_interval_secs(), 5);
}

#[test]
fn response_without_address_shows_no_device() {
    let mut discovery = MdnsDiscovery::new();
    assert!(!discovery.observe(response(Some("scope.local"), Some(80), vec![RecordKind::Other])));
    assert!(!discovery.observe(response(Some("scope.local"), Some(80), Vec::new())));
    assert!(discovery.get_devices().is_empty());
}

#[test]
fn response_without_host_name_is_kept_as_unknown() {
    let mut discovery = MdnsDiscovery::new();
    assert!(discovery.observe(response(None, None, vec![RecordKind::A("10.0.0.9".to_string())])));
    assert!(!discovery.observe(response(None, Some(1), vec![RecordKind::A("10.0.0.9".to_string())])));
    assert_eq!(
        shown(&discovery.get_devices()),
        vec![("<unknown>".to_string(), "10.0.0.9".to_string(), None)]
    );
}

#[test]
fn copy_of_a_device_holds_the_same() {
    let device = MdnsDevice { name: "a".to_string(), ip: "b".to_string(), port: Some(9) };
    let copy = device.clone();
    assert_eq!(copy.name, "a");
    assert_eq!(copy.ip, "b");
    assert_eq!(copy.port, Some(9));
}
