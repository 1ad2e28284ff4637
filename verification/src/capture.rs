//! Host capture decisions: key mapping, slot hotkeys, event-tap
//! dispositions, and touch frames built from raw trackpad contacts.
//!
//! The platform event sources deliver raw values; these functions decide
//! what to send and whether the local system keeps the event.
use vstd::prelude::*;

use crate::input::{TouchContact, TouchFrame, MAX_TOUCH_CONTACTS};
use crate::keyboard::KeyboardReport;
use crate::keymap::{hid_usage, mac_to_hid};
use crate::slots::{SlotTable, SlotTableView};

verus! {

/// Event flag bit: Shift held.
pub const EVENT_FLAG_SHIFT: u64 = 0x0002_0000;
/// Event flag bit: Control held.
pub const EVENT_FLAG_CONTROL: u64 = 0x0004_0000;
/// Event flag bit: Option (Alternate) held.
pub const EVENT_FLAG_ALTERNATE: u64 = 0x0008_0000;
/// Event flag bit: Command held.
pub const EVENT_FLAG_COMMAND: u64 = 0x0010_0000;

/// macOS virtual keycodes for the number keys 1-5.
pub const MAC_1: u16 = 0x12;
/// macOS virtual keycode of `2`.
pub const MAC_2: u16 = 0x13;
/// macOS virtual keycode of `3`.
pub const MAC_3: u16 = 0x14;
/// macOS virtual keycode of `4`.
pub const MAC_4: u16 = 0x15;
/// macOS virtual keycode of `5`.
pub const MAC_5: u16 = 0x17;

/// Multitouch contact state meaning "touching".
pub const TOUCHING_STATE: i32 = 4;

/// HID modifier byte for the held modifier flags (left and right hands are
/// not told apart: Control, Shift, Option, Command map to bits 0-3).
pub open spec fn modifiers_of(flags: u64) -> u8 {
    ((if flags & EVENT_FLAG_CONTROL != 0 { 0x01int } else { 0int })
        + (if flags & EVENT_FLAG_SHIFT != 0 { 0x02int } else { 0int })
        + (if flags & EVENT_FLAG_ALTERNATE != 0 { 0x04int } else { 0int })
        + (if flags & EVENT_FLAG_COMMAND != 0 { 0x08int } else { 0int })) as u8
}

/// Translate event modifier flags into the HID modifier byte.
pub fn flags_to_hid_modifiers(flags: u64) -> (modifiers: u8)
    ensures
        modifiers == modifiers_of(flags),
        modifiers <= 0x0F,
        (modifiers & 0x01 != 0) == (flags & 0x0004_0000 != 0),
        (modifiers & 0x02 != 0) == (flags & 0x0002_0000 != 0),
        (modifiers & 0x04 != 0) == (flags & 0x0008_0000 != 0),
        (modifiers & 0x08 != 0) == (flags & 0x0010_0000 != 0),
{
    proof {
        lemma_modifier_bits(flags);
    }
    let mut m: u8 = 0;
    if flags & EVENT_FLAG_CONTROL != 0 {
        m = m + 0x01;
    }
    if flags & EVENT_FLAG_SHIFT != 0 {
        m = m + 0x02;
    }
    if flags & EVENT_FLAG_ALTERNATE != 0 {
        m = m + 0x04;
    }
    if flags & EVENT_FLAG_COMMAND != 0 {
        m = m + 0x08;
    }
    m
}

proof fn lemma_four_bits(c: bool, s: bool, a: bool, m: bool)
    by (bit_vector)
    ensures
        ({
            let r = ((if c { 1int } else { 0int }) + (if s { 2int } else { 0int }) + (if a { 4int } else {
                0int
            }) + (if m { 8int } else { 0int })) as u8;
            &&& (r & 0x01 != 0) == c
            &&& (r & 0x02 != 0) == s
            &&& (r & 0x04 != 0) == a
            &&& (r & 0x08 != 0) == m
            &&& r & 0xF0 == 0
        }),
{
}

proof fn lemma_low_bits_equal(x: u8, y: u8)
    by (bit_vector)
    requires
        (x & 0x01 != 0) == (y & 0x01 != 0),
        (x & 0x02 != 0) == (y & 0x02 != 0),
        (x & 0x04 != 0) == (y & 0x04 != 0),
        (x & 0x08 != 0) == (y & 0x08 != 0),
        x & 0xF0 == 0,
        y & 0xF0 == 0,
    ensures
        x == y,
{
}

/// The HID modifier byte has Control in bit 0 (0x01), Shift in bit 1
/// (0x02), Option in bit 2 (0x04) and Command in bit 3 (0x08), each set
/// exactly when its event flag is held, and no other bit.
pub proof fn lemma_modifier_bits(flags: u64)
    ensures
        (modifiers_of(flags) & 0x01 != 0) == (flags & 0x0004_0000 != 0),
        (modifiers_of(flags) & 0x02 != 0) == (flags & 0x0002_0000 != 0),
        (modifiers_of(flags) & 0x04 != 0) == (flags & 0x0008_0000 != 0),
        (modifiers_of(flags) & 0x08 != 0) == (flags & 0x0010_0000 != 0),
        modifiers_of(flags) & 0xF0 == 0,
{
    lemma_four_bits(
        flags & EVENT_FLAG_CONTROL != 0,
        flags & EVENT_FLAG_SHIFT != 0,
        flags & EVENT_FLAG_ALTERNATE != 0,
        flags & EVENT_FLAG_COMMAND != 0,
    );
}

/// Each single modifier flag gives its own HID bit, and the byte for
/// several held flags is the OR of theirs.
pub proof fn lemma_modifier_flags_combine(a: u64, b: u64)
    ensures
        modifiers_of(0x0004_0000) == 0x01,
        modifiers_of(0x0002_0000) == 0x02,
        modifiers_of(0x0008_0000) == 0x04,
        modifiers_of(0x0010_0000) == 0x08,
        modifiers_of(a | b) == modifiers_of(a) | modifiers_of(b),
{
    lemma_modifier_bits(0x0004_0000);
    lemma_modifier_bits(0x0002_0000);
    lemma_modifier_bits(0x0008_0000);
    lemma_modifier_bits(0x0010_0000);
    assert(0x0004_0000u64 & 0x0004_0000 != 0 && 0x0004_0000u64 & 0x0002_0000 == 0 && 0x0004_0000u64 & 0x0008_0000 == 0
        && 0x0004_0000u64 & 0x0010_0000 == 0) by (bit_vector);
    assert(0x0002_0000u64 & 0x0004_0000 == 0 && 0x0002_0000u64 & 0x0002_0000 != 0 && 0x0002_0000u64 & 0x0008_0000 == 0
        && 0x0002_0000u64 & 0x0010_0000 == 0) by (bit_vector);
    assert(0x0008_0000u64 & 0x0004_0000 == 0 && 0x0008_0000u64 & 0x0002_0000 == 0 && 0x0008_0000u64 & 0x0008_0000 != 0
        && 0x0008_0000u64 & 0x0010_0000 == 0) by (bit_vector);
    assert(0x0010_0000u64 & 0x0004_0000 == 0 && 0x0010_0000u64 & 0x0002_0000 == 0 && 0x0010_0000u64 & 0x0008_0000 == 0
        && 0x0010_0000u64 & 0x0010_0000 != 0) by (bit_vector);
    lemma_low_bits_equal(modifiers_of(0x0004_0000), 0x01);
    lemma_low_bits_equal(modifiers_of(0x0002_0000), 0x02);
    lemma_low_bits_equal(modifiers_of(0x0008_0000), 0x04);
    lemma_low_bits_equal(modifiers_of(0x0010_0000), 0x08);
    lemma_modifier_bits(a);
    lemma_modifier_bits(b);
    lemma_modifier_bits(a | b);
    let x = modifiers_of(a);
    let y = modifiers_of(b);
    assert(((a | b) & 0x0004_0000 != 0) == (a & 0x0004_0000 != 0 || b & 0x0004_0000 != 0)) by (bit_vector);
    assert(((a | b) & 0x0002_0000 != 0) == (a & 0x0002_0000 != 0 || b & 0x0002_0000 != 0)) by (bit_vector);
    assert(((a | b) & 0x0008_0000 != 0) == (a & 0x0008_0000 != 0 || b & 0x0008_0000 != 0)) by (bit_vector);
    assert(((a | b) & 0x0010_0000 != 0) == (a & 0x0010_0000 != 0 || b & 0x0010_0000 != 0)) by (bit_vector);
    assert(((x | y) & 0x01 != 0) == (x & 0x01 != 0 || y & 0x01 != 0) && ((x | y) & 0x02 != 0) == (x & 0x02 != 0
        || y & 0x02 != 0) && ((x | y) & 0x04 != 0) == (x & 0x04 != 0 || y & 0x04 != 0) && ((x | y) & 0x08 != 0)
        == (x & 0x08 != 0 || y & 0x08 != 0) && (x & 0xF0 == 0 && y & 0xF0 == 0 ==> (x | y) & 0xF0 == 0))
        by (bit_vector);
    lemma_low_bits_equal(modifiers_of(a | b), x | y);
}

/// Kind of a keyboard event from the event tap.
#[derive(Clone, Copy, Debug, PartialEq, Eq)]
pub enum KeyEventKind {
    /// A key went down.
    KeyDown,
    /// A key went up.
    KeyUp,
    /// Modifier flags changed.
    FlagsChanged,
    /// Any other event.
    Other,
}

/// The keyboard report a key event produces.
pub open spec fn key_report(kind: KeyEventKind, mac_keycode: u16, modifiers: u8) -> Option<KeyboardReport> {
    match kind {
        KeyEventKind::KeyDown => if hid_usage(mac_keycode) >= 0xE0 {
            None
        } else {
            Some(
                KeyboardReport {
                    modifiers,
                    reserved: 0,
                    keycodes: [hid_usage(mac_keycode), 0u8, 0u8, 0u8, 0u8, 0u8],
                },
            )
        },
        KeyEventKind::KeyUp => if hid_usage(mac_keycode) >= 0xE0 {
            None
        } else {
            Some(KeyboardReport { modifiers, reserved: 0, keycodes: [0u8, 0u8, 0u8, 0u8, 0u8, 0u8] })
        },
        KeyEventKind::FlagsChanged => Some(
            KeyboardReport { modifiers, reserved: 0, keycodes: [0u8, 0u8, 0u8, 0u8, 0u8, 0u8] },
        ),
        KeyEventKind::Other => None,
    }
}

/// Translate a key event into a keyboard report: key down reports the key,
/// key up and modifier changes report no key; modifier keys themselves are
/// only reported through modifier changes.
pub fn translate_key_event(kind: KeyEventKind, mac_keycode: u16, modifiers: u8) -> (report: Option<
    KeyboardReport,
>)
    ensures
        report == key_report(kind, mac_keycode, modifiers),
{
    match kind {
        KeyEventKind::KeyDown => {
            let hid_key = mac_to_hid(mac_keycode);
            if hid_key >= 0xE0 {
                return None;
            }
            Some(KeyboardReport { modifiers, reserved: 0, keycodes: [hid_key, 0, 0, 0, 0, 0] })
        },
        KeyEventKind::KeyUp => {
            let hid_key = mac_to_hid(mac_keycode);
            if hid_key >= 0xE0 {
                return None;
            }
            Some(KeyboardReport { modifiers, reserved: 0, keycodes: [0, 0, 0, 0, 0, 0] })
        },
        KeyEventKind::FlagsChanged => Some(
            KeyboardReport { modifiers, reserved: 0, keycodes: [0, 0, 0, 0, 0, 0] },
        ),
        KeyEventKind::Other => None,
    }
}

/// Target selected by a slot hotkey.
#[derive(Clone, Copy, Debug, PartialEq, Eq)]
pub enum HotkeyTarget {
    /// Keep input on the local machine.
    Local,
    /// Forward input to a remote slot.
    Remote(usize),
}

/// Whether Control and Option are both held.
pub open spec fn ctrl_opt_held(flags: u64) -> bool {
    flags & (EVENT_FLAG_CONTROL | EVENT_FLAG_ALTERNATE) == (EVENT_FLAG_CONTROL | EVENT_FLAG_ALTERNATE)
}

/// The target of Ctrl+Opt+1..5, if the key event is one.
pub open spec fn hotkey_target(flags: u64, mac_keycode: u16) -> Option<HotkeyTarget> {
    if !ctrl_opt_held(flags) {
        None
    } else if mac_keycode == MAC_1 {
        Some(HotkeyTarget::Local)
    } else if mac_keycode == MAC_2 {
        Some(HotkeyTarget::Remote(0))
    } else if mac_keycode == MAC_3 {
        Some(HotkeyTarget::Remote(1))
    } else if mac_keycode == MAC_4 {
        Some(HotkeyTarget::Remote(2))
    } else if mac_keycode == MAC_5 {
        Some(HotkeyTarget::Remote(3))
    } else {
        None
    }
}

/// Check whether a key-down is Ctrl+Opt+1-5; if so, switch the target
/// (1 = local, 2-5 = remote slots 0-3) and return true.
pub fn handle_slot_hotkey(flags: u64, mac_keycode: u16, slots: &mut SlotTable) -> (handled: bool)
    ensures
        handled == hotkey_target(flags, mac_keycode) is Some,
        match hotkey_target(flags, mac_keycode) {
            Some(HotkeyTarget::Local) => final(slots)@ == (SlotTableView {
                forwarding: false,
                ..old(slots)@
            }),
            Some(HotkeyTarget::Remote(s)) => final(slots)@ == (SlotTableView {
                active: s as int,
                forwarding: true,
                ..old(slots)@
            }),
            None => final(slots)@ == old(slots)@,
        },
{
    let mask = EVENT_FLAG_CONTROL | EVENT_FLAG_ALTERNATE;
    if flags & mask != mask {
        return false;
    }
    if mac_keycode == MAC_1 {
        slots.switch_to_mac();
        true
    } else if mac_keycode == MAC_2 {
        slots.switch_to_remote(0);
        true
    } else if mac_keycode == MAC_3 {
        slots.switch_to_remote(1);
        true
    } else if mac_keycode == MAC_4 {
        slots.switch_to_remote(2);
        true
    } else if mac_keycode == MAC_5 {
        slots.switch_to_remote(3);
        true
    } else {
        false
    }
}

/// With Control and Option held (whatever else is held), number key 1
/// (keycode 0x12) targets the Mac and number keys 2 to 5 (keycodes 0x13,
/// 0x14, 0x15, 0x17) target remote slots 0 to 3; no other key is a hotkey,
/// and without both Control and Option no key is.
pub proof fn lemma_hotkey_numbers(flags: u64, mac_keycode: u16)
    ensures
        (flags & 0x0004_0000 != 0 && flags & 0x0008_0000 != 0) ==> {
            &&& hotkey_target(flags, 0x12) == Some(HotkeyTarget::Local)
            &&& hotkey_target(flags, 0x13) == Some(HotkeyTarget::Remote(0))
            &&& hotkey_target(flags, 0x14) == Some(HotkeyTarget::Remote(1))
            &&& hotkey_target(flags, 0x15) == Some(HotkeyTarget::Remote(2))
            &&& hotkey_target(flags, 0x17) == Some(HotkeyTarget::Remote(3))
        },
        (mac_keycode != 0x12 && mac_keycode != 0x13 && mac_keycode != 0x14 && mac_keycode != 0x15
            && mac_keycode != 0x17) ==> hotkey_target(flags, mac_keycode) is None,
        !(flags & 0x0004_0000 != 0 && flags & 0x0008_0000 != 0) ==> hotkey_target(flags, mac_keycode) is None,
{
    assert((flags & 0x0004_0000 != 0 && flags & 0x0008_0000 != 0) <==> (flags & (0x0004_0000u64 | 0x0008_0000u64))
        == (0x0004_0000u64 | 0x0008_0000u64)) by (bit_vector);
}

/// Kind of an event seen by the event tap.
#[derive(Clone, Copy, Debug, PartialEq, Eq)]
pub enum TapEventKind {
    /// The system disabled the tap (timeout or user input).
    TapDisabled,
    /// A key went down.
    KeyDown,
    /// A key went up.
    KeyUp,
    /// Modifier flags changed.
    FlagsChanged,
    /// Left button pressed.
    LeftMouseDown,
    /// Left button released.
    LeftMouseUp,
    /// Any other mouse or scroll event.
    OtherMouse,
}

/// What to do with one tapped event.
#[derive(Clone, Copy, Debug, PartialEq, Eq)]
pub struct TapDecision {
    /// Whether the local system keeps the event (otherwise it is dropped).
    pub keep: bool,
    /// Whether the event is translated and forwarded as a key report.
    pub forward_key: bool,
    /// New value of the shared click state, if it changes.
    pub click: Option<bool>,
    /// Whether the tap must be re-enabled.
    pub reenable: bool,
}

/// Disposition of a tapped event while forwarding (or not), given whether a
/// key-down was taken by a slot hotkey: while forwarding, every keyboard and
/// mouse event is suppressed locally and key and modifier changes are
/// forwarded (hotkeys only switch targets); otherwise every event stays local.
pub open spec fn tap_decision(kind: TapEventKind, forwarding: bool, hotkey_taken: bool) -> TapDecision {
    match kind {
        TapEventKind::TapDisabled => TapDecision { keep: true, forward_key: false, click: None, reenable: true },
        TapEventKind::KeyDown => if hotkey_taken {
            TapDecision { keep: !forwarding, forward_key: false, click: None, reenable: false }
        } else {
            TapDecision { keep: !forwarding, forward_key: forwarding, click: None, reenable: false }
        },
        TapEventKind::KeyUp => TapDecision {
            keep: !forwarding,
            forward_key: forwarding,
            click: None,
            reenable: false,
        },
        TapEventKind::FlagsChanged => TapDecision {
            keep: !forwarding,
            forward_key: forwarding,
            click: None,
            reenable: false,
        },
        TapEventKind::LeftMouseDown => TapDecision {
            keep: !forwarding,
            forward_key: false,
            click: if forwarding {
                Some(true)
            } else {
                None
            },
            reenable: false,
        },
        TapEventKind::LeftMouseUp => TapDecision {
            keep: !forwarding,
            forward_key: false,
            click: Some(false),
            reenable: false,
        },
        TapEventKind::OtherMouse => TapDecision {
            keep: !forwarding,
            forward_key: false,
            click: None,
            reenable: false,
        },
    }
}

/// Decide what happens to a tapped event: while forwarding, keyboard and
/// mouse events are dropped locally, and key presses, releases and modifier
/// changes are forwarded; a slot hotkey is never forwarded.
pub fn decide_tap_event(kind: TapEventKind, forwarding: bool, hotkey_taken: bool) -> (d: TapDecision)
    ensures
        d == tap_decision(kind, forwarding, hotkey_taken),
{
    match kind {
        TapEventKind::TapDisabled => TapDecision { keep: true, forward_key: false, click: None, reenable: true },
        TapEventKind::KeyDown => {
            if hotkey_taken {
                TapDecision { keep: !forwarding, forward_key: false, click: None, reenable: false }
            } else {
                TapDecision { keep: !forwarding, forward_key: forwarding, click: None, reenable: false }
            }
        },
        TapEventKind::KeyUp => TapDecision {
            keep: !forwarding,
            forward_key: forwarding,
            click: None,
            reenable: false,
        },
        TapEventKind::FlagsChanged => TapDecision {
            keep: !forwarding,
            forward_key: forwarding,
            click: None,
            reenable: false,
        },
        TapEventKind::LeftMouseDown => TapDecision {
            keep: !forwarding,
            forward_key: false,
            click: if forwarding {
                Some(true)
            } else {
                None
            },
            reenable: false,
        },
        TapEventKind::LeftMouseUp => TapDecision {
            keep: !forwarding,
            forward_key: false,
            click: Some(false),
            reenable: false,
        },
        TapEventKind::OtherMouse => TapDecision {
            keep: !forwarding,
            forward_key: false,
            click: None,
            reenable: false,
        },
    }
}

/// When input stays local, every event is kept and nothing is forwarded
/// (except re-enabling a disabled tap and releasing the click state).
pub proof fn lemma_local_keeps_everything(kind: TapEventKind, hotkey_taken: bool)
    ensures
        tap_decision(kind, false, hotkey_taken).keep,
        !tap_decision(kind, false, hotkey_taken).forward_key,
        tap_decision(kind, false, hotkey_taken).click != Some(true),
{
}

/// While forwarding, every keyboard and mouse event is suppressed on the
/// local machine (only the tap's own disable notices are kept); key presses
/// and releases other than slot hotkeys, and modifier changes, are forwarded.
pub proof fn lemma_forwarding_suppresses_local_input(kind: TapEventKind, hotkey_taken: bool)
    requires
        !(kind is TapDisabled),
    ensures
        !tap_decision(kind, true, hotkey_taken).keep,
        (kind is KeyUp || kind is FlagsChanged || (kind is KeyDown && !hotkey_taken)) ==> tap_decision(
            kind,
            true,
            hotkey_taken,
        ).forward_key,
{
}

/// A raw trackpad contact with its position already scaled to PTP logical
/// units.
#[derive(Clone, Copy, Debug, PartialEq, Eq)]
pub struct RawTouch {
    /// Contact identifier from the multitouch driver.
    pub identifier: i32,
    /// Contact state (4 = touching).
    pub state: i32,
    /// X in PTP logical units.
    pub x: u16,
    /// Y in PTP logical units (top = 0).
    pub y: u16,
}

/// The semantic contact of a touching raw contact.
pub open spec fn contact_of(t: RawTouch) -> TouchContact {
    TouchContact { contact_id: t.identifier as u32, x: t.x, y: t.y, touching: true, confident: true }
}

/// The touching contacts among `touches`, in order, at most five.
pub open spec fn touching_contacts(touches: Seq<RawTouch>) -> Seq<TouchContact>
    decreases touches.len(),
{
    if touches.len() == 0 {
        seq![]
    } else {
        let s = touching_contacts(touches.drop_last());
        if s.len() >= MAX_TOUCH_CONTACTS || touches.last().state != TOUCHING_STATE {
            s
        } else {
            s.push(contact_of(touches.last()))
        }
    }
}

/// Five frame slots holding `contacts`, empty contacts after them.
pub open spec fn padded_frame_contacts(contacts: Seq<TouchContact>) -> Seq<TouchContact> {
    Seq::new(
        5,
        |i: int|
            if i < contacts.len() {
                contacts[i]
            } else {
                TouchContact::empty_spec()
            },
    )
}

proof fn lemma_touching_contacts_len(touches: Seq<RawTouch>)
    ensures
        touching_contacts(touches).len() <= MAX_TOUCH_CONTACTS,
    decreases touches.len(),
{
    if touches.len() > 0 {
        lemma_touching_contacts_len(touches.drop_last());
    }
}

/// Build a semantic touch frame from raw contacts: the first five touching
/// contacts, in order, with the click state as button.
pub fn build_touch_frame(touches: &[RawTouch], clicked: bool) -> (frame: TouchFrame)
    ensures
        frame.contacts@ == padded_frame_contacts(touching_contacts(touches@)),
        frame.contact_count as int == touching_contacts(touches@).len(),
        frame.button == clicked,
{
    let mut frame = TouchFrame::empty();
    frame.button = clicked;
    let mut active: usize = 0;
    let mut i: usize = 0;
    while i < touches.len()
        invariant
            0 <= i <= touches@.len(),
            active as int == touching_contacts(touches@.take(i as int)).len(),
            active <= MAX_TOUCH_CONTACTS,
            frame.contacts@ == padded_frame_contacts(touching_contacts(touches@.take(i as int))),
            frame.button == clicked,
        decreases touches@.len() - i,
    {
        assert(touches@.take(i + 1).drop_last() == touches@.take(i as int));
        let touch = touches[i];
        if active < MAX_TOUCH_CONTACTS && touch.state == TOUCHING_STATE {
            frame.contacts[active] = TouchContact {
                contact_id: touch.identifier as u32,
                x: touch.x,
                y: touch.y,
                touching: true,
                confident: true,
            };
            active += 1;
            assert(frame.contacts@ =~= padded_frame_contacts(touching_contacts(touches@.take(i + 1))));
        }
        i += 1;
    }
    assert(touches@.take(touches@.len() as int) == touches@);
    frame.contact_count = active as u8;
    frame
}

/// What the trackpad callback does with a built frame.
#[derive(Clone, Copy, Debug, PartialEq, Eq)]
pub struct ContactFrameStep {
    /// Frame to queue for the firmware, if any.
    pub send: Option<TouchFrame>,
    /// Whether the last queued frame had contacts.
    pub had_contacts: bool,
    /// Whether the event is consumed (not passed to the local system).
    pub consume: bool,
}

/// Callback decision: nothing while input stays local; while forwarding,
/// queue frames with contacts, and the first empty frame after them (the
/// lift), then nothing until contacts come back.
pub open spec fn contact_frame_step(forwarding: bool, had_contacts: bool, frame: TouchFrame) -> ContactFrameStep {
    if !forwarding {
        ContactFrameStep { send: None, had_contacts: false, consume: false }
    } else if frame.contact_count > 0 {
        ContactFrameStep { send: Some(frame), had_contacts: true, consume: true }
    } else if had_contacts {
        ContactFrameStep { send: Some(frame), had_contacts: false, consume: true }
    } else {
        ContactFrameStep { send: None, had_contacts: false, consume: true }
    }
}

/// Decide what the trackpad callback does with a frame.
pub fn mt_callback_step(forwarding: bool, had_contacts: bool, frame: TouchFrame) -> (step: ContactFrameStep)
    ensures
        step == contact_frame_step(forwarding, had_contacts, frame),
{
    if !forwarding {
        return ContactFrameStep { send: None, had_contacts: false, consume: false };
    }
    if frame.contact_count > 0 {
        ContactFrameStep { send: Some(frame), had_contacts: true, consume: true }
    } else if had_contacts {
        ContactFrameStep { send: Some(frame), had_contacts: false, consume: true }
    } else {
        ContactFrameStep { send: None, had_contacts: false, consume: true }
    }
}

/// After a frame with contacts, exactly one empty frame is queued (the
/// lift); further empty frames are not.
pub proof fn lemma_single_lift_frame(had_contacts: bool, touching: TouchFrame, empty1: TouchFrame, empty2: TouchFrame)
    requires
        touching.contact_count > 0,
        empty1.contact_count == 0,
        empty2.contact_count == 0,
    ensures
        ({
            let s1 = contact_frame_step(true, had_contacts, touching);
            let s2 = contact_frame_step(true, s1.had_contacts, empty1);
            let s3 = contact_frame_step(true, s2.had_contacts, empty2);
            &&& s1.send == Some(touching)
            &&& s2.send == Some(empty1)
            &&& s3.send is None
        }),
{
}

} // verus!
