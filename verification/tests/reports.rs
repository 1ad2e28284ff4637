use esp32_uc::hid_descriptor::{
    hi_u16, lo_u16, COMPOSITE_REPORT_DESCRIPTOR, COMPOSITE_REPORT_DESCRIPTOR_LEN,
};
use esp32_uc::input::KeyboardSnapshot;
use esp32_uc::keyboard::KeyboardReport;
use esp32_uc::ptp::{is_ptp_input_mode, LOGICAL_X_MAX, PHYSICAL_X_MAX, PHYSICAL_Y_MAX};
use esp32_uc::timing::{scan_time_delta, scan_time_from_micros};

#[test]
fn descriptor_bytes_split_values() {
    assert_eq!(lo_u16(LOGICAL_X_MAX), 0xC0);
    assert_eq!(hi_u16(LOGICAL_X_MAX), 0x30);
    assert_eq!(PHYSICAL_X_MAX, 1248);
    assert_eq!(PHYSICAL_Y_MAX, 768);
    assert_eq!(lo_u16(0xFFFF), 0xFF);
    assert_eq!(hi_u16(0x00FF), 0x00);
}

#[test]
fn keyboard_report_bytes_and_conversion() {
    let report = KeyboardReport::from(KeyboardSnapshot { modifiers: 0x22, keys: [4, 5, 6, 7, 8, 9] });
    assert_eq!(report.reserved, 0);
    assert_eq!(report.to_bytes(), vec![0x22, 0, 4, 5, 6, 7, 8, 9]);
    assert_eq!(KeyboardReport::default().to_bytes(), vec![0; 8]);
}

#[test]
fn scan_time_wraps_in_hundred_microsecond_units() {
    assert_eq!(scan_time_from_micros(0), 0);
    assert_eq!(scan_time_from_micros(12_345), 123);
    assert_eq!(scan_time_from_micros(6_553_600), 0);
    assert_eq!(scan_time_from_micros(6_553_700), 1);
}

#[test]
fn delivery_scan_time_is_capped_elapsed_time() {
    assert_eq!(scan_time_delta(0, 500), 0);
    assert_eq!(scan_time_delta(100, 150), 50);
    assert_eq!(scan_time_delta(100, 5000), 0xFF);
    assert_eq!(scan_time_delta(u32::MAX, 3), 4);
}

#[test]
fn input_mode_write_detects_ptp() {
    assert!(is_ptp_input_mode(&[3]));
    assert!(is_ptp_input_mode(&[3, 0]));
    assert!(!is_ptp_input_mode(&[0]));
    assert!(!is_ptp_input_mode(&[]));
}

#[test]
fn composite_descriptor_layout() {
    let d = COMPOSITE_REPORT_DESCRIPTOR;
    assert_eq!(d.len(), COMPOSITE_REPORT_DESCRIPTOR_LEN);
    // Generic Desktop / Keyboard application collection, report ID 1.
    assert_eq!(&d[..8], &[0x05, 0x01, 0x09, 0x06, 0xA1, 0x01, 0x85, 0x01]);
    // Every collection is closed.
    let opened = d.windows(2).filter(|w| w[0] == 0xA1).count();
    let closed = d.iter().filter(|&&b| b == 0xC0).count();
    assert!(closed >= opened);
    assert_eq!(*d.last().unwrap(), 0xC0);
    // Touch pad collection with the multitouch report ID.
    let touchpad = d.windows(8).position(|w| w == [0x05, 0x0d, 0x09, 0x05, 0xA1, 0x01, 0x85, 0x05]);
    assert!(touchpad.is_some());
    // Logical X maximum 12480 = 0x30C0, written low byte first.
    assert!(d.windows(3).any(|w| w == [0x26, 0xC0, 0x30]));
    // Input mode feature: logical maximum is the contact count (5).
    assert!(d.windows(2).any(|w| w == [0x25, 0x05]));
}
