use mcu_provision::ports::DetectedPort;
use mcu_provision::ports::PortKind;
use mcu_provision::ports::list_port_infos;
use mcu_provision::DeviceError;

fn port(name: &str, kind: PortKind) -> DetectedPort {
    DetectedPort { name: name.to_string(), kind }
}

#[test]
fn darwin_drops_tty_entries() {
    let ports = vec![
        port("/dev/tty.usbserial-0001", PortKind::Usb { product: Some("CP2102".to_string()) }),
        port("/dev/cu.usbserial-0001", PortKind::Usb { product: Some("CP2102".to_string()) }),
        port("/dev/tty.Bluetooth-Incoming-Port", PortKind::Bluetooth),
    ];
    let infos = list_port_infos(&ports, true);
    assert_eq!(infos.len(), 1);
    assert_eq!(infos[0].name, "/dev/cu.usbserial-0001");
    assert!(infos.iter().all(|p| !p.name.starts_with("/dev/tty.")));
}

#[test]
fn other_platforms_keep_tty_entries() {
    let ports = vec![
        port("/dev/tty.something", PortKind::Unknown),
        port("/dev/ttyUSB0", PortKind::Usb { product: None }),
    ];
    let infos = list_port_infos(&ports, false);
    assert_eq!(infos.len(), 2);
    assert_eq!(infos[0].name, "/dev/tty.something");
}

#[test]
fn transport_kinds_are_rendered() {
    let ports = vec![
        port("COM1", PortKind::Usb { product: Some("ESP32 DevKit".to_string()) }),
        port("COM2", PortKind::Usb { product: None }),
        port("COM3", PortKind::Pci),
        port("COM4", PortKind::Bluetooth),
        port("COM5", PortKind::Unknown),
    ];
    let infos = list_port_infos(&ports, false);
    let labels: Vec<&str> = infos.iter().map(|p| p.port_type.as_str()).collect();
    assert_eq!(labels, vec!["USB - ESP32 DevKit", "USB - Unknown", "PCI", "Bluetooth", "Unknown"]);
}

#[test]
fn registry_order_is_kept() {
    let ports = vec![
        port("b", PortKind::Unknown),
        port("a", PortKind::Unknown),
        port("c", PortKind::Unknown),
    ];
    let infos = list_port_infos(&ports, false);
    let names: Vec<&str> = infos.iter().map(|p| p.name.as_str()).collect();
    assert_eq!(names, vec!["b", "a", "c"]);
}

#[test]
fn error_labels() {
    assert_eq!(DeviceError::EnumerationFailed.label(), "Failed to list serial ports");
    assert_eq!(DeviceError::ReadFailed.label(), "Read error");
    assert_eq!(
        DeviceError::ResourceMissing.label(),
        "Could not find ncd_flasher.py in bundled resources"
    );
    assert_eq!(DeviceError::SpawnFailed.label(), "Failed to execute external tool");
    assert_eq!(DeviceError::WaitFailed.label(), "Failed to wait for process");
    assert_eq!(DeviceError::WorkerFailed.label(), "Task join error");
}
