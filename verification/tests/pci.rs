//! The number of a graphics device.
use gpui_mobile::pci::{forced_device_id, parse_pci_id, PciIdError};

#[test]
fn test_parse_device_id() {
    assert!(parse_pci_id("0xABCD").is_ok());
    assert!(parse_pci_id("ABCD").is_ok());
    assert!(parse_pci_id("abcd").is_ok());
    assert!(parse_pci_id("1234").is_ok());
    assert!(parse_pci_id("123").is_err());
    assert_eq!(
        parse_pci_id(&format!("{:x}", 0x1234)).unwrap(),
        parse_pci_id(&format!("{:X}", 0x1234)).unwrap(),
    );

    assert_eq!(
        parse_pci_id(&format!("{:#x}", 0x1234)).unwrap(),
        parse_pci_id(&format!("{:#X}", 0x1234)).unwrap(),
    );
    assert_eq!(
        parse_pci_id(&format!("{:#x}", 0x1234)).unwrap(),
        parse_pci_id(&format!("{:#X}", 0x1234)).unwrap(),
    );
}

#[test]
fn device_ids_are_read_as_hexadecimal() {
    assert_eq!(parse_pci_id("0xABCD"), Ok(0xABCD));
    assert_eq!(parse_pci_id("  abcd\n"), Ok(0xABCD));
    assert_eq!(parse_pci_id("0X00ff"), Ok(255));
    assert_eq!(parse_pci_id("0x0x12"), Err(PciIdError));
    assert_eq!(parse_pci_id("12345"), Err(PciIdError));
    assert_eq!(parse_pci_id("12g4"), Err(PciIdError));
    assert_eq!(parse_pci_id(""), Err(PciIdError));
    assert_eq!(parse_pci_id("\u{a0}1234\u{a0}"), Ok(0x1234));
}

#[test]
fn a_bad_device_id_lets_the_system_choose() {
    assert_eq!(forced_device_id(Some("0x1234")), 0x1234);
    assert_eq!(forced_device_id(Some("none")), 0);
    assert_eq!(forced_device_id(None), 0);
}
