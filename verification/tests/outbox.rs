use esp32_uc::input::{KeyboardSnapshot, TouchContact, TouchFrame};
use esp32_uc::outbox::Outbox;
use esp32_uc::wire::HostMsg;

#[test]
fn coalesces_touch_frames_to_latest_one() {
    let mut outbox = Outbox::new();
    let mut first_contacts = [TouchContact::default(); 5];
    first_contacts[0] = TouchContact {
        contact_id: 1,
        x: 10,
        y: 20,
        touching: true,
        confident: true,
    };
    let mut second_contacts = [TouchContact::default(); 5];
    second_contacts[0] = TouchContact {
        contact_id: 1,
        x: 30,
        y: 40,
        touching: true,
        confident: true,
    };

    outbox.push(HostMsg::TouchFrame(TouchFrame {
        contacts: first_contacts,
        contact_count: 1,
        button: false,
    }));
    outbox.push(HostMsg::TouchFrame(TouchFrame {
        contacts: second_contacts,
        contact_count: 1,
        button: true,
    }));

    let Some(HostMsg::TouchFrame(frame)) = outbox.recv() else {
        panic!("expected touch frame");
    };
    assert_eq!(frame.contacts[0].x, 30);
    assert!(frame.button);
}

#[test]
fn prioritizes_control_messages_and_clears_touch_on_select() {
    let mut outbox = Outbox::new();
    outbox.push(HostMsg::TouchFrame(TouchFrame::default()));
    outbox.push(HostMsg::SelectPeer(Some(2)));
    outbox.push(HostMsg::KeyboardState(KeyboardSnapshot {
        modifiers: 1,
        keys: [4, 0, 0, 0, 0, 0],
    }));

    assert_eq!(outbox.recv(), Some(HostMsg::SelectPeer(Some(2))));
    assert_eq!(
        outbox.recv(),
        Some(HostMsg::KeyboardState(KeyboardSnapshot {
            modifiers: 1,
            keys: [4, 0, 0, 0, 0, 0],
        }))
    );
}

#[test]
fn select_drops_pending_touch_frame() {
    let mut outbox = Outbox::new();
    outbox.push(HostMsg::TouchFrame(TouchFrame::default()));
    outbox.push(HostMsg::SelectPeer(None));
    assert_eq!(outbox.recv(), Some(HostMsg::SelectPeer(None)));
    assert_eq!(outbox.recv(), None);
}

#[test]
fn control_messages_keep_their_order_before_touch() {
    let mut outbox = Outbox::new();
    let frame = TouchFrame { contact_count: 1, ..TouchFrame::default() };
    outbox.push(HostMsg::ConsumerState(0x10));
    outbox.push(HostMsg::TouchFrame(frame));
    outbox.push(HostMsg::ConsumerState(0));
    assert_eq!(outbox.recv(), Some(HostMsg::ConsumerState(0x10)));
    assert_eq!(outbox.recv(), Some(HostMsg::ConsumerState(0)));
    assert_eq!(outbox.recv(), Some(HostMsg::TouchFrame(frame)));
    assert_eq!(outbox.recv(), None);
}

#[test]
fn empty_outbox_has_nothing_to_send() {
    let mut outbox = Outbox::new();
    assert_eq!(outbox.recv(), None);
}
