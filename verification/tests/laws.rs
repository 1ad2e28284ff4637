use esp32_uc::hidd::{
    feature_selects_ptp, hidd_step, HiddReaction, ESP_HIDD_CONNECT_EVENT, ESP_HIDD_CONTROL_EVENT,
    ESP_HIDD_DISCONNECT_EVENT, ESP_HIDD_FEATURE_EVENT, ESP_HIDD_OUTPUT_EVENT, ESP_HIDD_START_EVENT,
    ESP_HIDD_STOP_EVENT,
};
use esp32_uc::input::{KeyboardSnapshot, TouchContact, TouchFrame};
use esp32_uc::keymap::{mac_to_hid, MAC_KEYCODE_COUNT};
use esp32_uc::outbox::Outbox;
use esp32_uc::ptp::{TouchReportEncoder, FINGER_DOWN, FINGER_UP, REPORTID_REPORTMODE};
use esp32_uc::session::{BleEvent, Session, SessionAction};
use esp32_uc::slots::SlotTable;
use esp32_uc::wire::{Hello, HostMsg, PROTOCOL_VERSION};

fn touch(contact_id: u32, x: u16, y: u16) -> TouchContact {
    TouchContact { contact_id, x, y, touching: true, confident: true }
}

fn frame_of(list: &[TouchContact]) -> TouchFrame {
    let mut contacts = [TouchContact::default(); 5];
    for (i, c) in list.iter().enumerate() {
        contacts[i] = *c;
    }
    TouchFrame { contacts, contact_count: list.len() as u8, button: false }
}

#[test]
fn hid_events_drive_the_connection_flag() {
    assert_eq!(
        hidd_step(false, ESP_HIDD_START_EVENT),
        HiddReaction { connected: false, start_advertising: true, preload_features: false }
    );
    assert_eq!(
        hidd_step(false, ESP_HIDD_CONNECT_EVENT),
        HiddReaction { connected: false, start_advertising: false, preload_features: true }
    );
    assert_eq!(
        hidd_step(false, ESP_HIDD_FEATURE_EVENT),
        HiddReaction { connected: true, start_advertising: false, preload_features: false }
    );
    assert_eq!(
        hidd_step(true, ESP_HIDD_DISCONNECT_EVENT),
        HiddReaction { connected: false, start_advertising: true, preload_features: false }
    );
    for id in [ESP_HIDD_CONTROL_EVENT, ESP_HIDD_OUTPUT_EVENT, ESP_HIDD_STOP_EVENT, 42] {
        assert_eq!(
            hidd_step(true, id),
            HiddReaction { connected: true, start_advertising: false, preload_features: false }
        );
    }
}

#[test]
fn input_mode_write_selects_ptp() {
    assert!(feature_selects_ptp(u16::from(REPORTID_REPORTMODE), &[0x03]));
    assert!(feature_selects_ptp(u16::from(REPORTID_REPORTMODE), &[0x03, 0x00]));
    assert!(!feature_selects_ptp(u16::from(REPORTID_REPORTMODE), &[0x00]));
    assert!(!feature_selects_ptp(u16::from(REPORTID_REPORTMODE), &[]));
    assert!(!feature_selects_ptp(0x06, &[0x03]));
}

#[test]
fn lost_link_reverts_to_local_input() {
    let mut table = SlotTable::new();
    table.connect([1, 2, 3, 4, 5, 6]);
    assert!(table.switch_to_remote(2));
    assert!(table.is_forwarding());
    assert!(!table.revert_to_local());
    assert!(!table.is_forwarding());
    assert_eq!(table.active(), 2);
    assert_eq!(table.slot_addr(0), Some([1, 2, 3, 4, 5, 6]));
}

#[test]
fn keycode_table_is_injective_and_in_range() {
    let mut seen = std::collections::HashSet::new();
    for k in 0..MAC_KEYCODE_COUNT as u16 {
        let hid = mac_to_hid(k);
        assert!(hid == 0 || (0x04..=0x92).contains(&hid) || (0xE0..=0xE7).contains(&hid));
        if hid != 0 {
            assert!(seen.insert(hid), "usage {hid:#x} produced twice");
        }
    }
    assert_eq!(mac_to_hid(128), 0);
}

#[test]
fn outbox_delivers_each_control_message_once_in_order() {
    let mut outbox = Outbox::new();
    let mut keys = KeyboardSnapshot::default();
    outbox.push(HostMsg::KeyboardState(keys));
    outbox.push(HostMsg::TouchFrame(frame_of(&[touch(1, 1, 1)])));
    keys.modifiers = 2;
    outbox.push(HostMsg::KeyboardState(keys));
    assert_eq!(outbox.recv(), Some(HostMsg::KeyboardState(KeyboardSnapshot::default())));
    outbox.push(HostMsg::ConsumerState(1));
    assert_eq!(outbox.recv(), Some(HostMsg::KeyboardState(keys)));
    assert_eq!(outbox.recv(), Some(HostMsg::ConsumerState(1)));
    assert_eq!(outbox.recv(), Some(HostMsg::TouchFrame(frame_of(&[touch(1, 1, 1)]))));
    assert_eq!(outbox.recv(), None);
}

#[test]
fn reselecting_the_active_peer_changes_nothing() {
    let mut s = Session::new();
    s.handle_host_msg(HostMsg::Hello(Hello { protocol_version: PROTOCOL_VERSION }), 0);
    s.handle_ble_event(BleEvent::Connected { conn_handle: 3, addr: [7; 6] });
    let first = s.handle_host_msg(HostMsg::SelectPeer(Some(0)), 0);
    assert!(!first.is_empty());
    let mut actions: Vec<SessionAction> = Vec::new();
    s.select_peer(&mut actions, Some(0), 5);
    assert!(actions.is_empty());
    assert!(s.handle_host_msg(HostMsg::SelectPeer(Some(0)), 6).is_empty());
}

#[test]
fn every_contact_is_reported_once_with_lifts() {
    let mut encoder = TouchReportEncoder::new();
    encoder.encode(&frame_of(&[touch(1, 10, 10), touch(2, 20, 20)]), 1).expect("down");
    // Contact 1 stays, 2 leaves, 3 and 4 arrive.
    let report = encoder
        .encode(&frame_of(&[touch(3, 30, 30), touch(1, 11, 11), touch(4, 40, 40)]), 2)
        .expect("report");
    assert_eq!(report.contact_count, 4);
    let slots: Vec<(u8, u32, u16)> =
        report.contacts[..4].iter().map(|c| (c.flags, c.contact_id, c.x)).collect();
    assert_eq!(
        slots,
        vec![(FINGER_DOWN, 1, 11), (FINGER_UP, 2, 20), (FINGER_DOWN, 3, 30), (FINGER_DOWN, 4, 40)]
    );
}

#[test]
fn report_keeps_priority_when_more_than_five_contacts_concern_it() {
    let mut encoder = TouchReportEncoder::new();
    encoder
        .encode(&frame_of(&[touch(1, 1, 1), touch(2, 2, 2), touch(3, 3, 3)]), 1)
        .expect("down");
    // 1 and 2 leave, 3 stays, four new contacts arrive: seven concerned.
    let report = encoder
        .encode(
            &frame_of(&[touch(10, 10, 10), touch(3, 33, 33), touch(11, 11, 11), touch(12, 12, 12), touch(13, 13, 13)]),
            2,
        )
        .expect("report");
    assert_eq!(report.contact_count, 5);
    let ids: Vec<u32> = report.contacts.iter().map(|c| c.contact_id).collect();
    assert_eq!(ids, vec![3, 1, 2, 10, 11]);
}
