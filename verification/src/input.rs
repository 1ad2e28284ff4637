//! Semantic input snapshots shared between the host and the firmware.
use vstd::prelude::*;

verus! {

/// Maximum simultaneous non-modifier keys tracked in a keyboard snapshot.
pub const MAX_KEYS: usize = 6;

/// Maximum simultaneous touch contacts carried in a semantic touch frame
/// (the same number as `ptp::MAX_CONTACTS`).
pub const MAX_TOUCH_CONTACTS: usize = 5;

/// Consumer usage bit: Scan Next Track.
pub const CONSUMER_NEXT_TRACK: u16 = 0x0001;
/// Consumer usage bit: Scan Previous Track.
pub const CONSUMER_PREVIOUS_TRACK: u16 = 0x0002;
/// Consumer usage bit: Stop.
pub const CONSUMER_STOP: u16 = 0x0004;
/// Consumer usage bit: Play/Pause.
pub const CONSUMER_PLAY_PAUSE: u16 = 0x0008;
/// Consumer usage bit: Mute.
pub const CONSUMER_MUTE: u16 = 0x0010;
/// Consumer usage bit: Volume Up.
pub const CONSUMER_VOLUME_UP: u16 = 0x0020;
/// Consumer usage bit: Volume Down.
pub const CONSUMER_VOLUME_DOWN: u16 = 0x0040;

/// Full keyboard state snapshot.
#[derive(Clone, Copy, Debug, Default, PartialEq, Eq)]
pub struct KeyboardSnapshot {
    /// USB HID modifier bitfield.
    pub modifiers: u8,
    /// Up to six simultaneous non-modifier HID usages.
    pub keys: [u8; 6],
}

impl KeyboardSnapshot {
    /// The snapshot with no modifier and no key held.
    pub open spec fn released_spec() -> KeyboardSnapshot {
        KeyboardSnapshot { modifiers: 0, keys: [0u8, 0u8, 0u8, 0u8, 0u8, 0u8] }
    }

    /// The snapshot with no modifier and no key held.
    pub fn released() -> (s: KeyboardSnapshot)
        ensures
            s == Self::released_spec(),
    {
        KeyboardSnapshot { modifiers: 0, keys: [0u8, 0u8, 0u8, 0u8, 0u8, 0u8] }
    }
}

/// One semantic touch contact in the current frame.
#[derive(Clone, Copy, Debug, Default, PartialEq, Eq)]
pub struct TouchContact {
    /// Stable contact identifier for the current finger lifecycle.
    pub contact_id: u32,
    /// X coordinate in PTP logical units.
    pub x: u16,
    /// Y coordinate in PTP logical units.
    pub y: u16,
    /// Whether the contact is touching the surface.
    pub touching: bool,
    /// Whether the contact is intentional / confident.
    pub confident: bool,
}

impl TouchContact {
    /// The all-zero contact that fills unused frame slots.
    pub open spec fn empty_spec() -> TouchContact {
        TouchContact { contact_id: 0, x: 0, y: 0, touching: false, confident: false }
    }

    /// The all-zero contact that fills unused frame slots.
    pub fn empty() -> (c: TouchContact)
        ensures
            c == Self::empty_spec(),
    {
        TouchContact { contact_id: 0, x: 0, y: 0, touching: false, confident: false }
    }
}

/// Semantic touch frame captured on the host.
#[derive(Clone, Copy, Debug, Default, PartialEq, Eq)]
pub struct TouchFrame {
    /// Up to five current contacts.
    pub contacts: [TouchContact; 5],
    /// Number of populated contacts in `contacts`.
    pub contact_count: u8,
    /// Whether the clickpad button is pressed.
    pub button: bool,
}

/// Number of contacts of a frame that count: `contact_count`, capped at the array size.
pub open spec fn populated_len(frame: TouchFrame) -> int {
    if (frame.contact_count as int) < MAX_TOUCH_CONTACTS as int {
        frame.contact_count as int
    } else {
        MAX_TOUCH_CONTACTS as int
    }
}

/// The populated contacts of a frame, in order.
pub open spec fn populated(frame: TouchFrame) -> Seq<TouchContact> {
    frame.contacts@.take(populated_len(frame))
}

impl TouchFrame {
    /// A frame with no contact and the button released.
    pub open spec fn empty_spec() -> TouchFrame {
        TouchFrame {
            contacts: [
                TouchContact::empty_spec(),
                TouchContact::empty_spec(),
                TouchContact::empty_spec(),
                TouchContact::empty_spec(),
                TouchContact::empty_spec(),
            ],
            contact_count: 0,
            button: false,
        }
    }

    /// A frame with no contact and the button released.
    pub fn empty() -> (f: TouchFrame)
        ensures
            f == Self::empty_spec(),
    {
        TouchFrame {
            contacts: [
                TouchContact::empty(),
                TouchContact::empty(),
                TouchContact::empty(),
                TouchContact::empty(),
                TouchContact::empty(),
            ],
            contact_count: 0,
            button: false,
        }
    }

    /// Returns the currently populated contacts in this frame.
    pub fn contacts(&self) -> (populated_contacts: &[TouchContact])
        ensures
            populated_contacts@ == populated(*self),
    {
        let count = self.contact_count as usize;
        let len = if count < MAX_TOUCH_CONTACTS { count } else { MAX_TOUCH_CONTACTS };
        let all: &[TouchContact] = self.contacts.as_slice();
        let (head, _tail) = all.split_at(len);
        head
    }
}

} // verus!
