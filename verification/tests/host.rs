use esp32_uc::capture::{
    build_touch_frame, decide_tap_event, flags_to_hid_modifiers, handle_slot_hotkey,
    mt_callback_step, translate_key_event, KeyEventKind, RawTouch, TapDecision, TapEventKind,
    EVENT_FLAG_ALTERNATE, EVENT_FLAG_COMMAND, EVENT_FLAG_CONTROL, EVENT_FLAG_SHIFT,
};
use esp32_uc::debug::{key_for_scan_time, SlotTable as DebugSlots};
use esp32_uc::input::TouchFrame;
use esp32_uc::keyboard::KeyboardReport;
use esp32_uc::keymap::{mac_to_consumer, mac_to_hid, modifier_mask};
use esp32_uc::serial::format_addr;
use esp32_uc::slots::SlotTable;
use esp32_uc::wire::{FirmwareMsg, PeerDescriptor, PeerSnapshot};

const A: [u8; 6] = [1, 0, 0, 0, 0, 0];
const B: [u8; 6] = [2, 0, 0, 0, 0, 0];
const C: [u8; 6] = [3, 0, 0, 0, 0, 0];
const D: [u8; 6] = [4, 0, 0, 0, 0, 0];
const E: [u8; 6] = [5, 0, 0, 0, 0, 0];

#[test]
fn keymap_translates_known_keys() {
    assert_eq!(mac_to_hid(0x00), 0x04);
    assert_eq!(mac_to_hid(0x24), 0x28);
    assert_eq!(mac_to_hid(0x7E), 0x52);
    assert_eq!(mac_to_hid(0x34), 0x00);
    assert_eq!(mac_to_hid(0x80), 0x00);
    assert_eq!(mac_to_hid(0xFFFF), 0x00);
}

#[test]
fn media_keys_map_to_consumer_bits() {
    assert_eq!(mac_to_consumer(0x48), Some(0x20));
    assert_eq!(mac_to_consumer(0x49), Some(0x40));
    assert_eq!(mac_to_consumer(0x4A), Some(0x10));
    assert_eq!(mac_to_consumer(0x00), None);
}

#[test]
fn modifier_keys_give_single_bits() {
    assert_eq!(modifier_mask(0x3B), Some(0x01));
    assert_eq!(modifier_mask(0x38), Some(0x02));
    assert_eq!(modifier_mask(0x3A), Some(0x04));
    assert_eq!(modifier_mask(0x37), Some(0x08));
    assert_eq!(modifier_mask(0x36), Some(0x80));
    assert_eq!(modifier_mask(0x00), None);
}

#[test]
fn event_flags_map_to_hid_modifiers() {
    assert_eq!(flags_to_hid_modifiers(0), 0);
    assert_eq!(flags_to_hid_modifiers(EVENT_FLAG_CONTROL | EVENT_FLAG_COMMAND), 0x09);
    assert_eq!(flags_to_hid_modifiers(EVENT_FLAG_SHIFT | EVENT_FLAG_ALTERNATE | 0x100), 0x06);
}

#[test]
fn key_events_become_reports() {
    assert_eq!(
        translate_key_event(KeyEventKind::KeyDown, 0x00, 2),
        Some(KeyboardReport { modifiers: 2, reserved: 0, keycodes: [0x04, 0, 0, 0, 0, 0] })
    );
    assert_eq!(
        translate_key_event(KeyEventKind::KeyUp, 0x00, 0),
        Some(KeyboardReport { modifiers: 0, reserved: 0, keycodes: [0; 6] })
    );
    assert_eq!(translate_key_event(KeyEventKind::KeyDown, 0x38, 2), None);
    assert_eq!(
        translate_key_event(KeyEventKind::FlagsChanged, 0x38, 2),
        Some(KeyboardReport { modifiers: 2, reserved: 0, keycodes: [0; 6] })
    );
    assert_eq!(translate_key_event(KeyEventKind::Other, 0x00, 0), None);
}

#[test]
fn hotkeys_switch_targets() {
    let mut slots = SlotTable::new();
    let ctrl_opt = EVENT_FLAG_CONTROL | EVENT_FLAG_ALTERNATE;
    assert!(!handle_slot_hotkey(EVENT_FLAG_CONTROL, 0x13, &mut slots));
    assert!(!slots.is_forwarding());
    assert!(handle_slot_hotkey(ctrl_opt, 0x15, &mut slots));
    assert!(slots.is_forwarding());
    assert_eq!(slots.active(), 2);
    assert!(handle_slot_hotkey(ctrl_opt, 0x12, &mut slots));
    assert!(!slots.is_forwarding());
    assert_eq!(slots.active(), 2);
    assert!(handle_slot_hotkey(ctrl_opt, 0x17, &mut slots));
    assert_eq!(slots.active(), 3);
    assert!(!handle_slot_hotkey(ctrl_opt, 0x16, &mut slots));
}

#[test]
fn tap_decisions_follow_forwarding() {
    assert_eq!(
        decide_tap_event(TapEventKind::KeyDown, true, false),
        TapDecision { keep: false, forward_key: true, click: None, reenable: false }
    );
    assert_eq!(
        decide_tap_event(TapEventKind::KeyDown, true, true),
        TapDecision { keep: false, forward_key: false, click: None, reenable: false }
    );
    assert_eq!(
        decide_tap_event(TapEventKind::FlagsChanged, true, false),
        TapDecision { keep: false, forward_key: true, click: None, reenable: false }
    );
    assert_eq!(
        decide_tap_event(TapEventKind::KeyDown, false, true),
        TapDecision { keep: true, forward_key: false, click: None, reenable: false }
    );
    assert_eq!(
        decide_tap_event(TapEventKind::FlagsChanged, false, false),
        TapDecision { keep: true, forward_key: false, click: None, reenable: false }
    );
    assert_eq!(
        decide_tap_event(TapEventKind::LeftMouseDown, true, false),
        TapDecision { keep: false, forward_key: false, click: Some(true), reenable: false }
    );
    assert_eq!(
        decide_tap_event(TapEventKind::LeftMouseUp, false, false),
        TapDecision { keep: true, forward_key: false, click: Some(false), reenable: false }
    );
    assert_eq!(
        decide_tap_event(TapEventKind::TapDisabled, true, false),
        TapDecision { keep: true, forward_key: false, click: None, reenable: true }
    );
    assert!(decide_tap_event(TapEventKind::OtherMouse, false, false).keep);
}

#[test]
fn touch_frame_keeps_first_five_touching_contacts() {
    let mut touches = Vec::new();
    for i in 0..8 {
        touches.push(RawTouch { identifier: i, state: if i == 1 { 7 } else { 4 }, x: i as u16 * 10, y: 5 });
    }
    let frame = build_touch_frame(&touches, true);
    assert_eq!(frame.contact_count, 5);
    assert!(frame.button);
    let ids: Vec<u32> = frame.contacts.iter().map(|c| c.contact_id).collect();
    assert_eq!(ids, vec![0, 2, 3, 4, 5]);
    assert_eq!(frame.contacts[1].x, 20);
    let none = build_touch_frame(&[], false);
    assert_eq!(none, TouchFrame::default());
    let negative = build_touch_frame(&[RawTouch { identifier: -1, state: 4, x: 1, y: 1 }], false);
    assert_eq!(negative.contacts[0].contact_id, u32::MAX);
}

#[test]
fn one_lift_frame_follows_contacts() {
    let mut with_contact = TouchFrame::default();
    with_contact.contact_count = 1;
    let empty = TouchFrame::default();
    let s1 = mt_callback_step(true, false, with_contact);
    assert_eq!(s1.send, Some(with_contact));
    assert!(s1.consume);
    let s2 = mt_callback_step(true, s1.had_contacts, empty);
    assert_eq!(s2.send, Some(empty));
    let s3 = mt_callback_step(true, s2.had_contacts, empty);
    assert_eq!(s3.send, None);
    let local = mt_callback_step(false, true, with_contact);
    assert_eq!(local.send, None);
    assert!(!local.consume);
    assert!(!local.had_contacts);
}

#[test]
fn addresses_format_most_significant_first() {
    assert_eq!(format_addr(&[0xAA, 0xBB, 0xCC, 0xDD, 0xEE, 0xFF]), "FF:EE:DD:CC:BB:AA");
    assert_eq!(format_addr(&[0x01, 0x23, 0x45, 0x67, 0x89, 0x0A]), "0A:89:67:45:23:01");
}

#[test]
fn slot_table_connects_and_evicts_active() {
    let mut slots = SlotTable::new();
    assert_eq!(slots.connect(A), 0);
    assert_eq!(slots.connect(B), 1);
    assert_eq!(slots.connect(A), 0);
    assert_eq!(slots.connect(C), 2);
    assert_eq!(slots.connect(D), 3);
    assert!(slots.switch_to_remote(1));
    assert_eq!(slots.connect(E), 1);
    assert_eq!(slots.slot_addr(1), Some(E));
    slots.disconnect(A);
    assert_eq!(slots.slot_addr(0), None);
    assert_eq!(slots.connect(B), 0);
    assert!(!slots.set_active(4));
    assert_eq!(slots.active(), 1);
    slots.switch_to_mac();
    assert!(!slots.is_forwarding());
}

#[test]
fn debug_slot_table_assigns_like_the_host() {
    let mut slots = DebugSlots::new();
    assert_eq!(slots.assign(A), 0);
    assert_eq!(slots.assign(B), 1);
    assert_eq!(slots.assign(C), 2);
    assert_eq!(slots.assign(D), 3);
    slots.active = 2;
    assert_eq!(slots.assign(E), 2);
    assert_eq!(slots.assign(E), 2);
    slots.disconnect(B);
    assert_eq!(slots.slot_addr(1), None);
    slots.disconnect(B);
    assert_eq!(slots.slot_addr(2), Some(E));
}

#[test]
fn debug_test_key_cycles_through_letters() {
    assert_eq!(key_for_scan_time(0), (b'a', 0x04));
    assert_eq!(key_for_scan_time(50), (b'y', 0x1C));
    assert_eq!(key_for_scan_time(300), (b's', 0x16));
}

#[test]
fn status_lines_mark_the_receiving_target() {
    let mut slots = SlotTable::new();
    assert_eq!(slots.status_lines(), vec!["\u{25B6} Mac (Ctrl+Opt+1)".to_string()]);
    slots.connect([0xAA, 0xBB, 0xCC, 0xDD, 0xEE, 0xFF]);
    slots.connect(B);
    assert!(slots.switch_to_remote(1));
    assert_eq!(
        slots.status_lines(),
        vec![
            "  Mac (Ctrl+Opt+1)".to_string(),
            "  slot 0: FF:EE:DD:CC:BB:AA (Ctrl+Opt+2)".to_string(),
            "\u{25B6} slot 1: 00:00:00:00:00:02 (Ctrl+Opt+3)".to_string(),
        ]
    );
}

#[test]
fn debug_listing_shows_every_slot() {
    let mut slots = DebugSlots::new();
    slots.assign(A);
    assert_eq!(
        slots.listing_lines(),
        vec![
            "* slot 0: 00:00:00:00:00:01".to_string(),
            "  slot 1: (empty)".to_string(),
            "  slot 2: (empty)".to_string(),
            "  slot 3: (empty)".to_string(),
        ]
    );
}

#[test]
fn slot_table_mirrors_firmware_reports() {
    let mut slots = SlotTable::new();
    slots.apply_firmware_msg(&FirmwareMsg::PeerSnapshot(PeerSnapshot {
        peers: [None, Some(PeerDescriptor { slot: 1, addr: B }), None, None],
        active_slot: Some(1),
    }));
    assert!(slots.is_forwarding());
    assert_eq!(slots.active(), 1);
    assert_eq!(slots.slot_addr(1), Some(B));
    slots.apply_firmware_msg(&FirmwareMsg::PeerConnected(PeerDescriptor { slot: 3, addr: C }));
    assert_eq!(slots.slot_addr(3), Some(C));
    slots.apply_firmware_msg(&FirmwareMsg::PeerDisconnected { slot: 1 });
    assert_eq!(slots.slot_addr(1), None);
    slots.apply_firmware_msg(&FirmwareMsg::ActivePeerChanged(None));
    assert!(!slots.is_forwarding());
    slots.apply_firmware_msg(&FirmwareMsg::ActivePeerChanged(Some(9)));
    assert!(!slots.is_forwarding());
    slots.apply_firmware_msg(&FirmwareMsg::ActivePeerChanged(Some(3)));
    assert!(slots.is_forwarding());
    assert_eq!(slots.active(), 3);
    slots.apply_firmware_msg(&FirmwareMsg::LedState(1));
    assert_eq!(slots.active(), 3);
}
