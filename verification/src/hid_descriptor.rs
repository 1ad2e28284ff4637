//! Composite HID report descriptor: keyboard + consumer + PTP.
//!
//! Four top-level collections in a single report map:
//! 1. Generic Desktop / Keyboard (report ID 0x01): standard boot keyboard
//! 2. Consumer / Consumer Control (report ID 0x02): 16 media keys
//! 3. Digitizer / Touch Pad (report ID 0x05): 5-finger PTP multitouch
//! 4. Digitizer / Configuration (report ID 0x04/0x06): PTP input mode + function switch
//!
//! Each item is its tag (with the size code of its data: 1, 2 or 4 bytes
//! written as 1, 2 or 3) followed by its data, low byte first.
use vstd::prelude::*;

use crate::keyboard::{REPORTID_CONSUMER, REPORTID_KEYBOARD};
use crate::ptp::{
    LOGICAL_X_MAX, LOGICAL_Y_MAX, MAX_CONTACTS, PHYSICAL_X_MAX, PHYSICAL_Y_MAX,
    REPORTID_DEVICE_CAPS, REPORTID_FUNCSWITCH, REPORTID_MULTITOUCH, REPORTID_PTPHQA,
    REPORTID_REPORTMODE,
};

verus! {

// Item tags with no data (size code 0).
/// Main item: Input.
pub const HIDINPUT: u8 = 0x80;
/// Main item: Output.
pub const HIDOUTPUT: u8 = 0x90;
/// Main item: Feature.
pub const FEATURE: u8 = 0xB0;
/// Main item: Collection.
pub const COLLECTION: u8 = 0xA0;
/// Main item: End Collection.
pub const END_COLLECTION: u8 = 0xC0;
/// Global item: Usage Page.
pub const USAGE_PAGE: u8 = 0x04;
/// Global item: Logical Minimum.
pub const LOGICAL_MINIMUM: u8 = 0x14;
/// Global item: Logical Maximum.
pub const LOGICAL_MAXIMUM: u8 = 0x24;
/// Global item: Physical Maximum.
pub const PHYSICAL_MAXIMUM: u8 = 0x44;
/// Global item: Unit Exponent.
pub const UNIT_EXPONENT: u8 = 0x54;
/// Global item: Unit.
pub const UNIT: u8 = 0x64;
/// Global item: Report Size.
pub const REPORT_SIZE: u8 = 0x74;
/// Global item: Report ID.
pub const REPORT_ID: u8 = 0x84;
/// Global item: Report Count.
pub const REPORT_COUNT: u8 = 0x94;
/// Local item: Usage.
pub const USAGE: u8 = 0x08;
/// Local item: Usage Minimum.
pub const USAGE_MINIMUM: u8 = 0x18;
/// Local item: Usage Maximum.
pub const USAGE_MAXIMUM: u8 = 0x28;

/// `USAGE_PAGE` with one data byte.
pub const USAGE_PAGE_8: u8 = USAGE_PAGE | 1;
/// `USAGE` with one data byte.
pub const USAGE_8: u8 = USAGE | 1;
/// `LOGICAL_MINIMUM` with one data byte.
pub const LOGICAL_MINIMUM_8: u8 = LOGICAL_MINIMUM | 1;
/// `LOGICAL_MAXIMUM` with one data byte.
pub const LOGICAL_MAXIMUM_8: u8 = LOGICAL_MAXIMUM | 1;
/// `PHYSICAL_MAXIMUM` with one data byte.
pub const PHYSICAL_MAXIMUM_8: u8 = PHYSICAL_MAXIMUM | 1;
/// `UNIT_EXPONENT` with one data byte.
pub const UNIT_EXPONENT_8: u8 = UNIT_EXPONENT | 1;
/// `UNIT` with one data byte.
pub const UNIT_8: u8 = UNIT | 1;
/// `REPORT_SIZE` with one data byte.
pub const REPORT_SIZE_8: u8 = REPORT_SIZE | 1;
/// `REPORT_ID` with one data byte.
pub const REPORT_ID_8: u8 = REPORT_ID | 1;
/// `REPORT_COUNT` with one data byte.
pub const REPORT_COUNT_8: u8 = REPORT_COUNT | 1;
/// `COLLECTION` with one data byte.
pub const COLLECTION_8: u8 = COLLECTION | 1;
/// `HIDINPUT` with one data byte.
pub const HIDINPUT_8: u8 = HIDINPUT | 1;
/// `FEATURE` with one data byte.
pub const FEATURE_8: u8 = FEATURE | 1;
/// `USAGE_PAGE` with two data bytes.
pub const USAGE_PAGE_16: u8 = USAGE_PAGE | 2;
/// `LOGICAL_MAXIMUM` with two data bytes.
pub const LOGICAL_MAXIMUM_16: u8 = LOGICAL_MAXIMUM | 2;
/// `PHYSICAL_MAXIMUM` with two data bytes.
pub const PHYSICAL_MAXIMUM_16: u8 = PHYSICAL_MAXIMUM | 2;
/// `REPORT_COUNT` with two data bytes.
pub const REPORT_COUNT_16: u8 = REPORT_COUNT | 2;
/// `UNIT` with two data bytes.
pub const UNIT_16: u8 = UNIT | 2;
/// `LOGICAL_MAXIMUM` with four data bytes.
pub const LOGICAL_MAXIMUM_32: u8 = LOGICAL_MAXIMUM | 3;
/// `PHYSICAL_MAXIMUM` with four data bytes.
pub const PHYSICAL_MAXIMUM_32: u8 = PHYSICAL_MAXIMUM | 3;

/// Number of bytes of the composite report descriptor.
pub const COMPOSITE_REPORT_DESCRIPTOR_LEN: usize = 620;

/// Full composite HID report descriptor: keyboard + consumer + PTP + config.
/// The touchpad collections follow the layout of the Wellspring T2
/// precision touchpad.
pub const COMPOSITE_REPORT_DESCRIPTOR: [u8; 620] = [
    // =========================================================================
    // TLC 1: Generic Desktop / Keyboard
    // =========================================================================
    USAGE_PAGE | 1, 0x01,  // Generic Desktop
    USAGE | 1, 0x06,  // Keyboard
    COLLECTION | 1, 0x01,  // Application
    REPORT_ID | 1, REPORTID_KEYBOARD,
    // --- Modifier keys (8 bits) ---
    USAGE_PAGE | 1, 0x07,  // Keyboard/Keypad
    USAGE_MINIMUM | 1, 0xE0,  // Left Control
    USAGE_MAXIMUM | 1, 0xE7,  // Right GUI
    LOGICAL_MINIMUM | 1, 0x00,
    LOGICAL_MAXIMUM | 1, 0x01,
    REPORT_SIZE | 1, 0x01,
    REPORT_COUNT | 1, 0x08,
    HIDINPUT | 1, 0x02,  // Data, Var, Abs
    // --- Reserved byte ---
    REPORT_COUNT | 1, 0x01,
    REPORT_SIZE | 1, 0x08,
    HIDINPUT | 1, 0x01,  // Const
    // --- LED output (5 bits + 3 padding) ---
    REPORT_COUNT | 1, 0x05,
    REPORT_SIZE | 1, 0x01,
    USAGE_PAGE | 1, 0x08,  // LEDs
    USAGE_MINIMUM | 1, 0x01,  // Num Lock
    USAGE_MAXIMUM | 1, 0x05,  // Kana
    HIDOUTPUT | 1, 0x02,  // Data, Var, Abs
    REPORT_COUNT | 1, 0x01,
    REPORT_SIZE | 1, 0x03,
    HIDOUTPUT | 1, 0x01,  // Const (padding)
    // --- Key codes (6 bytes) ---
    REPORT_COUNT | 1, 0x06,
    REPORT_SIZE | 1, 0x08,
    LOGICAL_MINIMUM | 1, 0x00,
    LOGICAL_MAXIMUM | 1, 0x65,  // 101 keys
    USAGE_PAGE | 1, 0x07,  // Keyboard/Keypad
    USAGE_MINIMUM | 1, 0x00,
    USAGE_MAXIMUM | 1, 0x65,
    HIDINPUT | 1, 0x00,  // Data, Array, Abs
    END_COLLECTION,
    // =========================================================================
    // TLC 2: Consumer / Consumer Control
    // =========================================================================
    USAGE_PAGE | 1, 0x0C,  // Consumer
    USAGE | 1, 0x01,  // Consumer Control
    COLLECTION | 1, 0x01,  // Application
    REPORT_ID | 1, REPORTID_CONSUMER,
    USAGE_PAGE | 1, 0x0C,  // Consumer
    LOGICAL_MINIMUM | 1, 0x00,
    LOGICAL_MAXIMUM | 1, 0x01,
    REPORT_SIZE | 1, 0x01,
    REPORT_COUNT | 1, 0x10,  // 16 bits
    USAGE | 1, 0xB5,  // Scan Next Track
    USAGE | 1, 0xB6,  // Scan Previous Track
    USAGE | 1, 0xB7,  // Stop
    USAGE | 1, 0xCD,  // Play/Pause
    USAGE | 1, 0xE2,  // Mute
    USAGE | 1, 0xE9,  // Volume Up
    USAGE | 1, 0xEA,  // Volume Down
    USAGE | 2, 0x23, 0x02,  // WWW Home
    USAGE | 2, 0x94, 0x01,  // My Computer
    USAGE | 2, 0x92, 0x01,  // Calculator
    USAGE | 2, 0x2A, 0x02,  // WWW Favorites
    USAGE | 2, 0x21, 0x02,  // WWW Search
    USAGE | 2, 0x26, 0x02,  // WWW Stop
    USAGE | 2, 0x24, 0x02,  // WWW Back
    USAGE | 2, 0x83, 0x01,  // Media Select
    USAGE | 2, 0x8A, 0x01,  // Mail
    HIDINPUT | 1, 0x02,  // Data, Var, Abs
    END_COLLECTION,

    // =========================================================================
    // TLC 3: Digitizer / Touch Pad
    // =========================================================================
    USAGE_PAGE_8,   0x0d,                       // Digitizer
    USAGE_8,        0x05,                       // Touch Pad
    COLLECTION_8,   0x01,                       // Application

    REPORT_ID_8,    REPORTID_MULTITOUCH,

    // ----- Finger 1 (variant 1: with unit reset) ----------------------------
    USAGE_8, 0x22, COLLECTION_8, 0x02,
    LOGICAL_MAXIMUM_8, 0x01, USAGE_8, 0x47, USAGE_8, 0x42,
    REPORT_COUNT_8, 0x02, REPORT_SIZE_8, 0x01, HIDINPUT_8, 0x02,
    REPORT_SIZE_8, 0x01, REPORT_COUNT_8, 0x06, HIDINPUT_8, 0x03,
    REPORT_COUNT_8, 0x01, REPORT_SIZE_8, 0x20,
    LOGICAL_MAXIMUM_32, 0xff, 0xff, 0xff, 0xff,
    USAGE_8, 0x51, HIDINPUT_8, 0x02,
    USAGE_PAGE_8, 0x01, LOGICAL_MAXIMUM_16, (LOGICAL_X_MAX % 256) as u8, (LOGICAL_X_MAX / 256) as u8, REPORT_SIZE_8, 0x10,
    UNIT_EXPONENT_8, 0x0e, UNIT_8, 0x11,
    USAGE_8, 0x30, PHYSICAL_MAXIMUM_16, (PHYSICAL_X_MAX % 256) as u8, (PHYSICAL_X_MAX / 256) as u8, REPORT_COUNT_8, 0x01, HIDINPUT_8, 0x02,
    PHYSICAL_MAXIMUM_16, (PHYSICAL_Y_MAX % 256) as u8, (PHYSICAL_Y_MAX / 256) as u8, LOGICAL_MAXIMUM_16, (LOGICAL_Y_MAX % 256) as u8, (LOGICAL_Y_MAX / 256) as u8, USAGE_8, 0x31, HIDINPUT_8, 0x02,
    PHYSICAL_MAXIMUM_8, 0x00, UNIT_EXPONENT_8, 0x00, UNIT_8, 0x00,
    END_COLLECTION,

    // ----- Finger 2 (variant 1: with unit reset) ----------------------------
    USAGE_PAGE_8, 0x0d, USAGE_8, 0x22, COLLECTION_8, 0x02,
    LOGICAL_MAXIMUM_8, 0x01, USAGE_8, 0x47, USAGE_8, 0x42,
    REPORT_COUNT_8, 0x02, REPORT_SIZE_8, 0x01, HIDINPUT_8, 0x02,
    REPORT_SIZE_8, 0x01, REPORT_COUNT_8, 0x06, HIDINPUT_8, 0x03,
    REPORT_COUNT_8, 0x01, REPORT_SIZE_8, 0x20,
    LOGICAL_MAXIMUM_32, 0xff, 0xff, 0xff, 0xff,
    USAGE_8, 0x51, HIDINPUT_8, 0x02,
    USAGE_PAGE_8, 0x01, LOGICAL_MAXIMUM_16, (LOGICAL_X_MAX % 256) as u8, (LOGICAL_X_MAX / 256) as u8, REPORT_SIZE_8, 0x10,
    UNIT_EXPONENT_8, 0x0e, UNIT_8, 0x11,
    USAGE_8, 0x30, PHYSICAL_MAXIMUM_16, (PHYSICAL_X_MAX % 256) as u8, (PHYSICAL_X_MAX / 256) as u8, REPORT_COUNT_8, 0x01, HIDINPUT_8, 0x02,
    PHYSICAL_MAXIMUM_16, (PHYSICAL_Y_MAX % 256) as u8, (PHYSICAL_Y_MAX / 256) as u8, LOGICAL_MAXIMUM_16, (LOGICAL_Y_MAX % 256) as u8, (LOGICAL_Y_MAX / 256) as u8, USAGE_8, 0x31, HIDINPUT_8, 0x02,
    PHYSICAL_MAXIMUM_8, 0x00, UNIT_EXPONENT_8, 0x00, UNIT_8, 0x00,
    END_COLLECTION,

    // ----- Finger 3 (variant 2: no unit reset) ------------------------------
    USAGE_PAGE_8, 0x0d, USAGE_8, 0x22, COLLECTION_8, 0x02,
    LOGICAL_MAXIMUM_8, 0x01, USAGE_8, 0x47, USAGE_8, 0x42,
    REPORT_COUNT_8, 0x02, REPORT_SIZE_8, 0x01, HIDINPUT_8, 0x02,
    REPORT_SIZE_8, 0x01, REPORT_COUNT_8, 0x06, HIDINPUT_8, 0x03,
    REPORT_COUNT_8, 0x01, REPORT_SIZE_8, 0x20,
    LOGICAL_MAXIMUM_32, 0xff, 0xff, 0xff, 0xff,
    USAGE_8, 0x51, HIDINPUT_8, 0x02,
    USAGE_PAGE_8, 0x01, LOGICAL_MAXIMUM_16, (LOGICAL_X_MAX % 256) as u8, (LOGICAL_X_MAX / 256) as u8, REPORT_SIZE_8, 0x10,
    UNIT_EXPONENT_8, 0x0e, UNIT_8, 0x11,
    USAGE_8, 0x30, PHYSICAL_MAXIMUM_16, (PHYSICAL_X_MAX % 256) as u8, (PHYSICAL_X_MAX / 256) as u8, REPORT_COUNT_8, 0x01, HIDINPUT_8, 0x02,
    PHYSICAL_MAXIMUM_16, (PHYSICAL_Y_MAX % 256) as u8, (PHYSICAL_Y_MAX / 256) as u8, LOGICAL_MAXIMUM_16, (LOGICAL_Y_MAX % 256) as u8, (LOGICAL_Y_MAX / 256) as u8, USAGE_8, 0x31, HIDINPUT_8, 0x02,
    END_COLLECTION,

    // ----- Finger 4 (variant 1: with unit reset) ----------------------------
    USAGE_PAGE_8, 0x0d, USAGE_8, 0x22, COLLECTION_8, 0x02,
    LOGICAL_MAXIMUM_8, 0x01, USAGE_8, 0x47, USAGE_8, 0x42,
    REPORT_COUNT_8, 0x02, REPORT_SIZE_8, 0x01, HIDINPUT_8, 0x02,
    REPORT_SIZE_8, 0x01, REPORT_COUNT_8, 0x06, HIDINPUT_8, 0x03,
    REPORT_COUNT_8, 0x01, REPORT_SIZE_8, 0x20,
    LOGICAL_MAXIMUM_32, 0xff, 0xff, 0xff, 0xff,
    USAGE_8, 0x51, HIDINPUT_8, 0x02,
    USAGE_PAGE_8, 0x01, LOGICAL_MAXIMUM_16, (LOGICAL_X_MAX % 256) as u8, (LOGICAL_X_MAX / 256) as u8, REPORT_SIZE_8, 0x10,
    UNIT_EXPONENT_8, 0x0e, UNIT_8, 0x11,
    USAGE_8, 0x30, PHYSICAL_MAXIMUM_16, (PHYSICAL_X_MAX % 256) as u8, (PHYSICAL_X_MAX / 256) as u8, REPORT_COUNT_8, 0x01, HIDINPUT_8, 0x02,
    PHYSICAL_MAXIMUM_16, (PHYSICAL_Y_MAX % 256) as u8, (PHYSICAL_Y_MAX / 256) as u8, LOGICAL_MAXIMUM_16, (LOGICAL_Y_MAX % 256) as u8, (LOGICAL_Y_MAX / 256) as u8, USAGE_8, 0x31, HIDINPUT_8, 0x02,
    PHYSICAL_MAXIMUM_8, 0x00, UNIT_EXPONENT_8, 0x00, UNIT_8, 0x00,
    END_COLLECTION,

    // ----- Finger 5 (variant 2: no unit reset) ------------------------------
    USAGE_PAGE_8, 0x0d, USAGE_8, 0x22, COLLECTION_8, 0x02,
    LOGICAL_MAXIMUM_8, 0x01, USAGE_8, 0x47, USAGE_8, 0x42,
    REPORT_COUNT_8, 0x02, REPORT_SIZE_8, 0x01, HIDINPUT_8, 0x02,
    REPORT_SIZE_8, 0x01, REPORT_COUNT_8, 0x06, HIDINPUT_8, 0x03,
    REPORT_COUNT_8, 0x01, REPORT_SIZE_8, 0x20,
    LOGICAL_MAXIMUM_32, 0xff, 0xff, 0xff, 0xff,
    USAGE_8, 0x51, HIDINPUT_8, 0x02,
    USAGE_PAGE_8, 0x01, LOGICAL_MAXIMUM_16, (LOGICAL_X_MAX % 256) as u8, (LOGICAL_X_MAX / 256) as u8, REPORT_SIZE_8, 0x10,
    UNIT_EXPONENT_8, 0x0e, UNIT_8, 0x11,
    USAGE_8, 0x30, PHYSICAL_MAXIMUM_16, (PHYSICAL_X_MAX % 256) as u8, (PHYSICAL_X_MAX / 256) as u8, REPORT_COUNT_8, 0x01, HIDINPUT_8, 0x02,
    PHYSICAL_MAXIMUM_16, (PHYSICAL_Y_MAX % 256) as u8, (PHYSICAL_Y_MAX / 256) as u8, LOGICAL_MAXIMUM_16, (LOGICAL_Y_MAX % 256) as u8, (LOGICAL_Y_MAX / 256) as u8, USAGE_8, 0x31, HIDINPUT_8, 0x02,
    END_COLLECTION,

    // ----- Scan Time --------------------------------------------------------
    USAGE_PAGE_8, 0x0d, UNIT_EXPONENT_8, 0x0c, UNIT_16, 0x01, 0x10,
    PHYSICAL_MAXIMUM_32, 0xff, 0xff, 0x00, 0x00,
    LOGICAL_MAXIMUM_32, 0xff, 0xff, 0x00, 0x00,
    USAGE_8, 0x56, HIDINPUT_8, 0x02,

    // ----- Contact Count + Button -------------------------------------------
    USAGE_8, 0x54, LOGICAL_MAXIMUM_8, 0x7f, REPORT_SIZE_8, 0x08, HIDINPUT_8, 0x02,
    USAGE_PAGE_8, 0x09, USAGE_8, 0x01, LOGICAL_MAXIMUM_8, 0x01, REPORT_SIZE_8, 0x01,
    HIDINPUT_8, 0x02, REPORT_COUNT_8, 0x07, HIDINPUT_8, 0x03,

    // ----- Feature: Device Capabilities (0x07) ------------------------------
    USAGE_PAGE_8, 0x0d, REPORT_ID_8, REPORTID_DEVICE_CAPS,
    USAGE_8, 0x55, USAGE_8, 0x59,
    LOGICAL_MINIMUM_8, 0x00, LOGICAL_MAXIMUM_16, 0xff, 0x00,
    REPORT_SIZE_8, 0x08, REPORT_COUNT_8, 0x02, FEATURE_8, 0x02,

    // ----- Feature: PTPHQA Certification (0x08) -----------------------------
    USAGE_PAGE_16, 0x00, 0xff, REPORT_ID_8, REPORTID_PTPHQA,
    USAGE_8, 0xc5, LOGICAL_MINIMUM_8, 0x00, LOGICAL_MAXIMUM_16, 0xff, 0x00,
    REPORT_SIZE_8, 0x08, REPORT_COUNT_16, 0x00, 0x01, FEATURE_8, 0x02,

    END_COLLECTION,

    // =========================================================================
    // TLC 4: Digitizer / Configuration
    // =========================================================================
    USAGE_PAGE_8, 0x0d, USAGE_8, 0x0e, COLLECTION_8, 0x01,

    REPORT_ID_8, REPORTID_REPORTMODE,
    USAGE_8, 0x22, COLLECTION_8, 0x02,
    USAGE_8, 0x52, LOGICAL_MINIMUM_8, 0x00, LOGICAL_MAXIMUM_8, MAX_CONTACTS,
    REPORT_SIZE_8, 0x08, REPORT_COUNT_8, 0x01, FEATURE_8, 0x02,
    END_COLLECTION,

    COLLECTION_8, 0x00, REPORT_ID_8, REPORTID_FUNCSWITCH,
    USAGE_8, 0x57, USAGE_8, 0x58,
    REPORT_SIZE_8, 0x01, REPORT_COUNT_8, 0x02, LOGICAL_MAXIMUM_8, 0x01, FEATURE_8, 0x02,
    REPORT_COUNT_8, 0x06, FEATURE_8, 0x03,
    END_COLLECTION,

    END_COLLECTION,

];

/// Low byte of a 16-bit descriptor value.
pub fn lo_u16(value: u16) -> (lo: u8)
    ensures
        lo as int == value % 256,
{
    assert(value & 0x00ff == value % 256 && value & 0x00ff < 256) by (bit_vector);
    (value & 0x00ff) as u8
}

/// High byte of a 16-bit descriptor value.
pub fn hi_u16(value: u16) -> (hi: u8)
    ensures
        hi as int == value / 256,
{
    assert(value >> 8 == value / 256 && value >> 8 < 256) by (bit_vector);
    (value >> 8) as u8
}

/// The two bytes written for a 16-bit value give it back, low byte first.
pub proof fn lemma_lo_hi_recompose(value: u16)
    ensures
        value == (value % 256) + 256 * (value / 256),
        value % 256 < 256,
        value / 256 < 256,
{
}


/// Whether the item at `at` of descriptor `d` has tag `tag` and one data
/// byte `value`.
pub open spec fn item_u8(d: Seq<u8>, at: int, tag: u8, value: u8) -> bool {
    d[at] == tag && d[at + 1] == value
}

/// Whether the item at `at` of descriptor `d` has tag `tag` and two data
/// bytes giving `value`, low byte first.
pub open spec fn item_u16(d: Seq<u8>, at: int, tag: u8, value: u16) -> bool {
    d[at] == tag && d[at + 1] + 256 * d[at + 2] == value
}

/// The descriptor declares the report IDs of the keyboard, consumer and
/// touchpad reports and of the four touchpad feature reports, gives each of
/// the five fingers the logical X and Y maxima of the touchpad reports, and
/// lets the input-mode feature count up to the five reported contacts.
pub proof fn lemma_descriptor_matches_reports()
    ensures
        ({
        let d = COMPOSITE_REPORT_DESCRIPTOR@;
        &&& d.len() == COMPOSITE_REPORT_DESCRIPTOR_LEN
        &&& item_u8(d, 6, REPORT_ID | 1, REPORTID_KEYBOARD)
        &&& item_u8(d, 71, REPORT_ID | 1, REPORTID_CONSUMER)
        &&& item_u8(d, 133, REPORT_ID_8, REPORTID_MULTITOUCH)
        &&& item_u8(d, 536, REPORT_ID_8, REPORTID_DEVICE_CAPS)
        &&& item_u8(d, 556, REPORT_ID_8, REPORTID_PTPHQA)
        &&& item_u8(d, 579, REPORT_ID_8, REPORTID_REPORTMODE)
        &&& item_u8(d, 589, LOGICAL_MAXIMUM_8, MAX_CONTACTS)
        &&& item_u8(d, 600, REPORT_ID_8, REPORTID_FUNCSWITCH)
        }),
        item_u16(COMPOSITE_REPORT_DESCRIPTOR@, 172, LOGICAL_MAXIMUM_16, LOGICAL_X_MAX),
        item_u16(COMPOSITE_REPORT_DESCRIPTOR@, 246, LOGICAL_MAXIMUM_16, LOGICAL_X_MAX),
        item_u16(COMPOSITE_REPORT_DESCRIPTOR@, 320, LOGICAL_MAXIMUM_16, LOGICAL_X_MAX),
        item_u16(COMPOSITE_REPORT_DESCRIPTOR@, 388, LOGICAL_MAXIMUM_16, LOGICAL_X_MAX),
        item_u16(COMPOSITE_REPORT_DESCRIPTOR@, 462, LOGICAL_MAXIMUM_16, LOGICAL_X_MAX),
        item_u16(COMPOSITE_REPORT_DESCRIPTOR@, 193, LOGICAL_MAXIMUM_16, LOGICAL_Y_MAX),
        item_u16(COMPOSITE_REPORT_DESCRIPTOR@, 267, LOGICAL_MAXIMUM_16, LOGICAL_Y_MAX),
        item_u16(COMPOSITE_REPORT_DESCRIPTOR@, 341, LOGICAL_MAXIMUM_16, LOGICAL_Y_MAX),
        item_u16(COMPOSITE_REPORT_DESCRIPTOR@, 409, LOGICAL_MAXIMUM_16, LOGICAL_Y_MAX),
        item_u16(COMPOSITE_REPORT_DESCRIPTOR@, 483, LOGICAL_MAXIMUM_16, LOGICAL_Y_MAX),
{
}

} // verus!
