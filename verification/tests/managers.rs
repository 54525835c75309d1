use serial_manager::discovery::{Action, Phase};
use serial_manager::events::{PortEvent, SerialEvent};
use serial_manager::manager::{failure_report, stamp_all, CerialManager, SerialManager};
use serial_manager::ports::{describe_device, get_log_chunk, is_incoming_only, open_timeout_millis,
    scan_for_devices, trim_name, PortInfo, PortKind};
use std::time::SystemTime;

fn strings(names: &[&str]) -> Vec<String> {
    names.iter().map(|n| n.to_string()).collect()
}

fn port(name: &str, kind: PortKind, type_text: &str) -> PortInfo {
    PortInfo { port_name: name.to_string(), kind, type_text: type_text.to_string() }
}

#[test]
fn manager_starts_empty() {
    let manager = SerialManager::new();
    assert!(manager.get_ports().is_empty());
    assert_eq!(manager.nap_millis(), 100);
}

#[test]
fn manager_prefers_the_outgoing_device_name() {
    let mut manager = SerialManager::new();
    let before = SystemTime::now();
    let events = manager.tick(Ok(strings(&[
        "/dev/tty.usbserial-1",
        "/dev/cu.usbserial-1",
        "/dev/tty.Bluetooth",
        "/dev/ttyUSB0",
    ])));
    let after = SystemTime::now();
    assert_eq!(
        manager.get_ports(),
        strings(&["/dev/cu.usbserial-1", "/dev/tty.Bluetooth", "/dev/ttyUSB0"])
    );
    assert_eq!(events.len(), 3);
    let mut arrived = Vec::new();
    for event in events {
        match event {
            SerialEvent::DeviceArrived { port_name, timestamp } => {
                assert!(before <= timestamp && timestamp <= after);
                arrived.push(port_name);
            }
            SerialEvent::DeviceDeparted { .. } => panic!("nothing departed"),
        }
    }
    assert_eq!(arrived, strings(&["/dev/cu.usbserial-1", "/dev/tty.Bluetooth", "/dev/ttyUSB0"]));
}

#[test]
fn manager_reports_departures_and_skips_failures() {
    let mut manager = SerialManager::new();
    manager.tick(Ok(strings(&["COM1", "COM2"])));
    assert!(manager.tick(Err("busy".to_string())).is_empty());
    assert_eq!(manager.get_ports(), strings(&["COM1", "COM2"]));
    let events = manager.tick(Ok(strings(&["COM2", "COM7"])));
    assert_eq!(events.len(), 2);
    assert!(matches!(&events[0], SerialEvent::DeviceArrived { port_name, .. } if port_name == "COM7"));
    assert!(matches!(&events[1], SerialEvent::DeviceDeparted { port_name, .. } if port_name == "COM1"));
    assert_eq!(manager.get_ports(), strings(&["COM2", "COM7"]));
}

#[test]
fn manager_stops_when_told() {
    let mut manager = SerialManager::new();
    assert_eq!(manager.next_action(false), Action::Snapshot);
    assert_eq!(manager.next_action(false), Action::Nap);
    manager.shutdown();
    manager.shutdown();
    assert_eq!(manager.next_action(false), Action::Exit);
    assert_eq!(manager.next_action(false), Action::Exit);
}

#[test]
fn stamped_event_keeps_name_and_time() {
    let at = SystemTime::UNIX_EPOCH;
    assert_eq!(
        SerialEvent::stamped(PortEvent::Added("COM3".to_string()), at),
        SerialEvent::DeviceArrived { port_name: "COM3".to_string(), timestamp: at }
    );
    assert_eq!(
        SerialEvent::stamped(PortEvent::Removed("COM3".to_string()), at),
        SerialEvent::DeviceDeparted { port_name: "COM3".to_string(), timestamp: at }
    );
    let stamped = stamp_all(vec![
        PortEvent::Removed("a".to_string()),
        PortEvent::Added("b".to_string()),
    ]);
    assert_eq!(stamped.len(), 2);
    assert!(matches!(&stamped[0], SerialEvent::DeviceDeparted { port_name, .. } if port_name == "a"));
    assert!(matches!(&stamped[1], SerialEvent::DeviceArrived { port_name, .. } if port_name == "b"));
}

#[test]
fn copy_of_an_event_is_the_same_event() {
    let at = SystemTime::now();
    let arrived = SerialEvent::DeviceArrived { port_name: "COM3".to_string(), timestamp: at };
    assert_eq!(arrived.clone(), arrived);
    let departed = SerialEvent::DeviceDeparted { port_name: "COM3".to_string(), timestamp: at };
    assert_eq!(departed.clone(), departed);
    assert_ne!(arrived, departed);
    let later = SerialEvent::DeviceArrived {
        port_name: "COM3".to_string(),
        timestamp: at + std::time::Duration::from_secs(1),
    };
    assert_ne!(arrived, later);
    let event = PortEvent::Added("COM3".to_string());
    assert_eq!(event.clone(), event);
}

#[test]
fn plain_manager_prefers_the_outgoing_name_and_reports_lines() {
    let mut manager = CerialManager::new();
    assert!(manager.get_ports().is_empty());
    let lines = manager.tick(Ok(strings(&["/dev/tty.usb1", "/dev/cu.usb1", "/dev/tty.usb2"])));
    assert_eq!(lines, strings(&["New port: /dev/cu.usb1", "New port: /dev/tty.usb2"]));
    assert_eq!(manager.get_ports(), strings(&["/dev/cu.usb1", "/dev/tty.usb2"]));
    let lines = manager.tick(Ok(strings(&["/dev/tty.usb2", "COM1"])));
    assert_eq!(lines, strings(&["New port: COM1", "Removed port: /dev/cu.usb1"]));
    let lines = manager.tick(Err("permission denied".to_string()));
    assert!(lines.is_empty());
    assert_eq!(manager.get_ports(), strings(&["/dev/tty.usb2", "COM1"]));
    assert_eq!(manager.nap_millis(), 100);
    assert_eq!(manager.next_action(true), Action::Exit);
    manager.shutdown();
    assert_eq!(manager.next_action(false), Action::Exit);
}

#[test]
fn failed_enumeration_is_reported_in_a_line() {
    assert_eq!(failure_report("permission denied"), "Error listing ports: permission denied");
    assert_eq!(failure_report(""), "Error listing ports: ");
}

#[test]
fn attempt_to_open_a_port_lasts_a_second() {
    assert_eq!(open_timeout_millis(), 1000);
}

#[test]
fn event_lines() {
    assert_eq!(PortEvent::Added("COM1".to_string()).log_line(), "New port: COM1");
    assert_eq!(PortEvent::Removed("".to_string()).log_line(), "Removed port: ");
    let at = SystemTime::UNIX_EPOCH;
    assert_eq!(
        SerialEvent::DeviceArrived { port_name: "COM1".to_string(), timestamp: at }.log_line(),
        "New port: COM1"
    );
    assert_eq!(
        SerialEvent::DeviceDeparted { port_name: "COM1".to_string(), timestamp: at }.log_line(),
        "Removed port: COM1"
    );
}

#[test]
fn phase_names_differ() {
    assert_ne!(Phase::Running, Phase::Stopping);
    assert_ne!(Phase::Stopping, Phase::Stopped);
}

#[test]
fn names_that_can_be_opened() {
    let manager = serial_manager::ports::SerialManager::new();
    let listed = strings(&["/dev/tty.usb1", "/dev/cu.usb1/", "COM3", "/dev/ttyUSB0", "/", "a//", ""]);
    assert_eq!(
        manager.get_available_ports(Ok(listed)),
        Ok(strings(&["/dev/cu.usb1", "COM3", "/dev/ttyUSB0", "", "a/", ""]))
    );
    assert_eq!(
        manager.get_available_ports(Err("no bus".to_string())),
        Err("Failed to get serial ports: no bus".to_string())
    );
    assert_eq!(manager.get_available_ports(Ok(Vec::new())), Ok(Vec::new()));
}

#[test]
fn trimming_and_incoming_names() {
    assert_eq!(trim_name("/dev/cu.x/"), "/dev/cu.x");
    assert_eq!(trim_name("/dev/cu.x"), "/dev/cu.x");
    assert_eq!(trim_name(""), "");
    assert_eq!(trim_name("é/"), "é");
    assert!(is_incoming_only("/dev/tty.x"));
    assert!(is_incoming_only("/dev/tty."));
    assert!(!is_incoming_only("/dev/tty"));
    assert!(!is_incoming_only("x/dev/tty.x"));
    assert!(!is_incoming_only("/dev/ttyUSB0"));
}

#[test]
fn devices_are_described_by_kind() {
    assert_eq!(
        describe_device("COM3", PortKind::Usb { vid: 0x0403, pid: 0x6001 }),
        "COM3 - USB Device (VID: 0403, PID: 6001)"
    );
    assert_eq!(
        describe_device("COM3", PortKind::Usb { vid: 0xffff, pid: 0 }),
        "COM3 - USB Device (VID: ffff, PID: 0000)"
    );
    assert_eq!(
        describe_device("x", PortKind::Usb { vid: 0x1a2b, pid: 0xc0de }),
        format!("x - USB Device (VID: {:04x}, PID: {:04x})", 0x1a2b, 0xc0de)
    );
    assert_eq!(describe_device("COM4", PortKind::Other), "COM4 - Other");
}

#[test]
fn scan_lists_what_can_be_opened() {
    let listed = vec![
        port("/dev/tty.usb1", PortKind::Usb { vid: 1, pid: 2 }, "UsbPort"),
        port("/dev/cu.usb1/", PortKind::Usb { vid: 0x2341, pid: 0x43 }, "UsbPort"),
        port("COM1", PortKind::Other, "PciPort"),
    ];
    assert_eq!(
        scan_for_devices(Ok(listed)),
        Ok(strings(&["/dev/cu.usb1 - USB Device (VID: 2341, PID: 0043)", "COM1 - Other"]))
    );
    assert_eq!(
        scan_for_devices(Err("no bus".to_string())),
        Err("Failed to scan for devices: no bus".to_string())
    );
}

#[test]
fn port_info_names_the_first_match() {
    let manager = serial_manager::ports::SerialManager::new();
    let listed = || {
        vec![
            port("COM1", PortKind::Other, "PciPort"),
            port("COM2", PortKind::Usb { vid: 1, pid: 2 }, "UsbPort(one)"),
            port("COM2", PortKind::Other, "Unknown"),
        ]
    };
    assert_eq!(
        manager.get_port_info("COM2", Ok(listed())),
        Ok("Port: COM2, Type: UsbPort(one)".to_string())
    );
    assert_eq!(
        manager.get_port_info("COM1", Ok(listed())),
        Ok("Port: COM1, Type: PciPort".to_string())
    );
    assert_eq!(
        manager.get_port_info("COM9", Ok(listed())),
        Err("Port COM9 not found".to_string())
    );
    assert_eq!(
        manager.get_port_info("COM1", Err("no bus".to_string())),
        Err("Failed to get port info: no bus".to_string())
    );
}

#[test]
fn open_port_says_its_lines() {
    let manager = serial_manager::ports::SerialManager::new();
    assert_eq!(
        manager.read_from_port("COM3", 115200, Ok(())),
        Ok(strings(&["Connected to COM3", "Baud rate: 115200", "Mock data from serial port"]))
    );
    assert_eq!(
        manager.read_from_port("COM3", 0, Ok(())),
        Ok(strings(&["Connected to COM3", "Baud rate: 0", "Mock data from serial port"]))
    );
    assert_eq!(
        manager.read_from_port("COM3", u32::MAX, Ok(())),
        Ok(strings(&["Connected to COM3", "Baud rate: 4294967295", "Mock data from serial port"]))
    );
    assert_eq!(
        manager.read_from_port("COM3", 9600, Err("denied".to_string())),
        Err("Failed to open port COM3: denied".to_string())
    );
}

#[test]
fn log_chunk_counts_from_one() {
    assert_eq!(
        get_log_chunk(0, 3),
        strings(&["Serial Port X, Line 1", "Serial Port X, Line 2", "Serial Port X, Line 3"])
    );
    assert_eq!(
        get_log_chunk(98, 3),
        strings(&["Serial Port X, Line 99", "Serial Port X, Line 100", "Serial Port X, Line 101"])
    );
    assert!(get_log_chunk(5, 0).is_empty());
    assert_eq!(
        get_log_chunk(usize::MAX - 1, 1),
        vec![format!("Serial Port X, Line {}", usize::MAX)]
    );
}
