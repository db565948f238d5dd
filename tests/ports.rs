use spindle_panel::ports::{list_compatible_ports, port_listed, PortEntry, ST_VENDOR_ID};

fn entry(name: &str, vid: Option<u16>) -> PortEntry {
    PortEntry { port_name: name.to_string(), usb_vendor_id: vid }
}

#[test]
fn no_ports_gives_no_compatible_ports() {
    assert!(list_compatible_ports(&Vec::new()).is_empty());
}

#[test]
fn only_st_usb_ports_are_compatible() {
    let ports = vec![
        entry("/dev/ttyUSB0", Some(0x10C4)),
        entry("/dev/ttyACM0", Some(0x0483)),
        entry("/dev/ttyS0", None),
    ];
    assert_eq!(list_compatible_ports(&ports), vec!["/dev/ttyACM0".to_string()]);
}

#[test]
fn compatible_ports_keep_discovery_order() {
    let ports = vec![
        entry("COM7", Some(ST_VENDOR_ID)),
        entry("COM3", None),
        entry("COM5", Some(ST_VENDOR_ID)),
    ];
    let found = list_compatible_ports(&ports);
    assert_eq!(found, vec!["COM7".to_string(), "COM5".to_string()]);
    for name in &found {
        assert!(ports.iter().any(|p| &p.port_name == name && p.usb_vendor_id == Some(0x0483)));
    }
}

#[test]
fn listed_port_is_found_whatever_its_vendor() {
    let ports = vec![entry("/dev/ttyS0", None), entry("/dev/ttyUSB0", Some(0x10C4))];
    assert!(port_listed(&ports, &"/dev/ttyS0".to_string()));
    assert!(port_listed(&ports, &"/dev/ttyUSB0".to_string()));
    assert!(!port_listed(&ports, &"/dev/ttyS99".to_string()));
}
