use esp32_uc::input::{KeyboardSnapshot, TouchContact, TouchFrame};
use esp32_uc::keyboard::KeyboardReport;
use esp32_uc::ptp::{PtpReport, FINGER_DOWN};
use esp32_uc::session::{BleEvent, Session, SessionAction};
use esp32_uc::wire::{
    FirmwareMsg, Hello, HelloAck, HostMsg, PeerDescriptor, PeerSnapshot, ProtocolError,
    PROTOCOL_VERSION,
};

const ADDR_A: [u8; 6] = [1, 2, 3, 4, 5, 6];
const ADDR_B: [u8; 6] = [9, 9, 9, 9, 9, 9];

fn ready_session() -> Session {
    let mut s = Session::new();
    let acts = s.handle_host_msg(HostMsg::Hello(Hello { protocol_version: PROTOCOL_VERSION }), 0);
    assert_eq!(acts.len(), 2);
    s
}

#[test]
fn wrong_protocol_version_is_refused() {
    let mut s = Session::new();
    let acts = s.handle_host_msg(HostMsg::Hello(Hello { protocol_version: PROTOCOL_VERSION + 1 }), 0);
    assert_eq!(
        acts,
        vec![SessionAction::Notify(FirmwareMsg::ProtocolError(
            ProtocolError::UnsupportedProtocolVersion {
                expected: PROTOCOL_VERSION,
                received: PROTOCOL_VERSION + 1,
            }
        ))]
    );
    // Still not ready: BLE events stay silent.
    assert!(s.handle_ble_event(BleEvent::LedState(1)).is_empty());
}

#[test]
fn handshake_answers_ack_and_snapshot() {
    let mut s = Session::new();
    s.handle_ble_event(BleEvent::Connected { conn_handle: 7, addr: ADDR_A });
    let acts = s.handle_host_msg(HostMsg::Hello(Hello { protocol_version: PROTOCOL_VERSION }), 0);
    assert_eq!(
        acts,
        vec![
            SessionAction::Notify(FirmwareMsg::HelloAck(HelloAck {
                protocol_version: PROTOCOL_VERSION,
                max_peers: 4,
            })),
            SessionAction::Notify(FirmwareMsg::PeerSnapshot(PeerSnapshot {
                peers: [Some(PeerDescriptor { slot: 0, addr: ADDR_A }), None, None, None],
                active_slot: None,
            })),
        ]
    );
}

#[test]
fn events_before_handshake_are_not_reported() {
    let mut s = Session::new();
    assert!(s.handle_ble_event(BleEvent::Connected { conn_handle: 1, addr: ADDR_A }).is_empty());
    assert!(s.handle_ble_event(BleEvent::LedState(2)).is_empty());
    assert!(s.handle_ble_event(BleEvent::Disconnected { conn_handle: 1 }).is_empty());
}

#[test]
fn peers_fill_first_free_slot() {
    let mut s = ready_session();
    assert_eq!(
        s.handle_ble_event(BleEvent::Connected { conn_handle: 1, addr: ADDR_A }),
        vec![FirmwareMsg::PeerConnected(PeerDescriptor { slot: 0, addr: ADDR_A })]
    );
    assert_eq!(
        s.handle_ble_event(BleEvent::Connected { conn_handle: 2, addr: ADDR_B }),
        vec![FirmwareMsg::PeerConnected(PeerDescriptor { slot: 1, addr: ADDR_B })]
    );
    s.handle_ble_event(BleEvent::Disconnected { conn_handle: 1 });
    assert_eq!(
        s.handle_ble_event(BleEvent::Connected { conn_handle: 3, addr: ADDR_A }),
        vec![FirmwareMsg::PeerConnected(PeerDescriptor { slot: 0, addr: ADDR_A })]
    );
    for h in 4..6 {
        s.handle_ble_event(BleEvent::Connected { conn_handle: h, addr: ADDR_B });
    }
    // Every slot taken: the new peer is not recorded.
    assert!(s.handle_ble_event(BleEvent::Connected { conn_handle: 9, addr: ADDR_B }).is_empty());
}

#[test]
fn invalid_slot_selection_is_reported() {
    let mut s = ready_session();
    assert_eq!(
        s.handle_host_msg(HostMsg::SelectPeer(Some(1)), 0),
        vec![SessionAction::Notify(FirmwareMsg::ProtocolError(ProtocolError::InvalidPeerSlot(1)))]
    );
    assert_eq!(
        s.handle_host_msg(HostMsg::SelectPeer(Some(7)), 0),
        vec![SessionAction::Notify(FirmwareMsg::ProtocolError(ProtocolError::InvalidPeerSlot(7)))]
    );
}

#[test]
fn input_goes_to_active_peer_only() {
    let mut s = ready_session();
    s.handle_ble_event(BleEvent::Connected { conn_handle: 11, addr: ADDR_A });
    let snapshot = KeyboardSnapshot { modifiers: 2, keys: [4, 0, 0, 0, 0, 0] };
    assert!(s.handle_host_msg(HostMsg::KeyboardState(snapshot), 0).is_empty());
    assert_eq!(
        s.handle_host_msg(HostMsg::SelectPeer(Some(0)), 0),
        vec![SessionAction::Notify(FirmwareMsg::ActivePeerChanged(Some(0)))]
    );
    assert_eq!(
        s.handle_host_msg(HostMsg::KeyboardState(snapshot), 0),
        vec![SessionAction::SendKeyboard {
            conn_handle: 11,
            report: KeyboardReport { modifiers: 2, reserved: 0, keycodes: [4, 0, 0, 0, 0, 0] },
        }]
    );
    assert_eq!(
        s.handle_host_msg(HostMsg::ConsumerState(0x20), 0),
        vec![SessionAction::SendConsumer { conn_handle: 11, bits: 0x20 }]
    );
    let mut frame = TouchFrame::default();
    frame.contacts[0] = TouchContact { contact_id: 3, x: 10, y: 20, touching: true, confident: true };
    frame.contact_count = 1;
    let acts = s.handle_host_msg(HostMsg::TouchFrame(frame), 77);
    assert_eq!(acts.len(), 1);
    match acts[0] {
        SessionAction::SendTouch { conn_handle, touch_report } => {
            assert_eq!(conn_handle, 11);
            assert_eq!(touch_report.scan_time, 77);
            assert_eq!(touch_report.contact_count, 1);
            assert_eq!(touch_report.contacts[0].flags, FINGER_DOWN);
        }
        _ => panic!("expected a touch report"),
    }
    // Re-selecting the active peer does nothing.
    assert!(s.handle_host_msg(HostMsg::SelectPeer(Some(0)), 0).is_empty());
}

#[test]
fn switching_peers_silences_the_previous_one() {
    let mut s = ready_session();
    s.handle_ble_event(BleEvent::Connected { conn_handle: 11, addr: ADDR_A });
    s.handle_ble_event(BleEvent::Connected { conn_handle: 12, addr: ADDR_B });
    s.handle_host_msg(HostMsg::SelectPeer(Some(0)), 0);
    let acts = s.handle_host_msg(HostMsg::SelectPeer(Some(1)), 42);
    let empty_touch = PtpReport { scan_time: 42, ..PtpReport::default() };
    assert_eq!(
        acts,
        vec![
            SessionAction::SendKeyboard { conn_handle: 11, report: KeyboardReport::default() },
            SessionAction::SendConsumer { conn_handle: 11, bits: 0 },
            SessionAction::SendTouch { conn_handle: 11, touch_report: empty_touch },
            SessionAction::Notify(FirmwareMsg::ActivePeerChanged(Some(1))),
        ]
    );
    let acts = s.handle_host_msg(HostMsg::SelectPeer(None), 43);
    assert_eq!(acts.len(), 4);
    assert_eq!(acts[3], SessionAction::Notify(FirmwareMsg::ActivePeerChanged(None)));
    assert!(s.handle_host_msg(HostMsg::ConsumerState(1), 0).is_empty());
}

#[test]
fn disconnect_of_active_peer_clears_routing() {
    let mut s = ready_session();
    s.handle_ble_event(BleEvent::Connected { conn_handle: 11, addr: ADDR_A });
    s.handle_host_msg(HostMsg::SelectPeer(Some(0)), 0);
    assert_eq!(
        s.handle_ble_event(BleEvent::Disconnected { conn_handle: 11 }),
        vec![
            FirmwareMsg::PeerDisconnected { slot: 0 },
            FirmwareMsg::ActivePeerChanged(None),
        ]
    );
    assert!(s.handle_host_msg(HostMsg::ConsumerState(1), 0).is_empty());
    assert!(s.handle_ble_event(BleEvent::Disconnected { conn_handle: 11 }).is_empty());
    assert_eq!(s.handle_ble_event(BleEvent::LedState(3)), vec![FirmwareMsg::LedState(3)]);
}
