//! Keyboard and consumer control report types and report IDs.
//!
//! The keyboard report follows the standard USB HID boot keyboard layout
//! (8 bytes): modifiers, a reserved byte, then six key codes.
use vstd::prelude::*;

use crate::input::KeyboardSnapshot;

verus! {

/// Report ID for the keyboard input/output reports.
pub const REPORTID_KEYBOARD: u8 = 0x01;
/// Report ID for the consumer control input report.
pub const REPORTID_CONSUMER: u8 = 0x02;
/// Size in bytes of an encoded keyboard report (report ID excluded).
pub const KEYBOARD_REPORT_SIZE: usize = 8;

/// Standard 8-byte boot keyboard report (excluding the report ID byte,
/// which the BLE layer handles).
#[derive(Clone, Copy, Debug, PartialEq, Eq)]
pub struct KeyboardReport {
    /// Modifier key bit flags (bit 0 = LCtrl, 1 = LShift, 2 = LAlt,
    /// 3 = LGui, 4-7 = right equivalents).
    pub modifiers: u8,
    /// Reserved byte (always 0).
    pub reserved: u8,
    /// Up to 6 simultaneous key codes (USB HID usage table).
    pub keycodes: [u8; 6],
}

impl KeyboardReport {
    /// The report with every key released.
    pub open spec fn released_spec() -> KeyboardReport {
        KeyboardReport { modifiers: 0, reserved: 0, keycodes: [0u8, 0u8, 0u8, 0u8, 0u8, 0u8] }
    }

    /// The report built from a keyboard snapshot.
    pub open spec fn of_snapshot(s: KeyboardSnapshot) -> KeyboardReport {
        KeyboardReport { modifiers: s.modifiers, reserved: 0, keycodes: s.keys }
    }

    /// The wire layout of a report: modifiers, reserved byte, six key codes.
    pub open spec fn layout(self) -> Seq<u8> {
        seq![self.modifiers, self.reserved] + self.keycodes@
    }

    /// The report's bytes in HID boot-keyboard layout.
    pub fn to_bytes(&self) -> (bytes: Vec<u8>)
        ensures
            bytes@ == self.layout(),
            bytes@.len() == KEYBOARD_REPORT_SIZE,
    {
        let mut bytes: Vec<u8> = Vec::new();
        bytes.push(self.modifiers);
        bytes.push(self.reserved);
        let mut i: usize = 0;
        while i < 6
            invariant
                0 <= i <= 6,
                bytes@ == seq![self.modifiers, self.reserved] + self.keycodes@.take(i as int),
            decreases 6 - i,
        {
            bytes.push(self.keycodes[i]);
            assert(self.keycodes@.take(i + 1) == self.keycodes@.take(i as int).push(self.keycodes@[i as int]));
            i += 1;
        }
        assert(self.keycodes@.take(6) == self.keycodes@);
        bytes
    }
}

impl Default for KeyboardReport {
    fn default() -> (r: KeyboardReport)
        ensures
            r == KeyboardReport::released_spec(),
    {
        KeyboardReport { modifiers: 0, reserved: 0, keycodes: [0u8, 0u8, 0u8, 0u8, 0u8, 0u8] }
    }
}

impl From<KeyboardSnapshot> for KeyboardReport {
    fn from(snapshot: KeyboardSnapshot) -> (report: KeyboardReport) {
        KeyboardReport { modifiers: snapshot.modifiers, reserved: 0, keycodes: snapshot.keys }
    }
}

impl vstd::std_specs::convert::FromSpecImpl<KeyboardSnapshot> for KeyboardReport {
    open spec fn obeys_from_spec() -> bool {
        true
    }

    open spec fn from_spec(snapshot: KeyboardSnapshot) -> KeyboardReport {
        KeyboardReport::of_snapshot(snapshot)
    }
}

} // verus!
