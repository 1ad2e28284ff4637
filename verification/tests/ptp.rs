use esp32_uc::input::{TouchContact, TouchFrame};
use esp32_uc::ptp::{
    find_contact_by_id, single_touch_report, PtpContact, PtpReport, TouchReportEncoder,
    TrackedContact, FINGER_DOWN, FINGER_UP, TIP_SWITCH,
};

#[derive(Clone, Copy, Debug, PartialEq, Eq)]
struct ContactSnapshot {
    flags: u8,
    contact_id: u32,
    x: u16,
    y: u16,
}

fn touch(contact_id: u32, x: u16, y: u16) -> TouchContact {
    TouchContact {
        contact_id,
        x,
        y,
        touching: true,
        confident: true,
    }
}

fn contacts(report: PtpReport) -> [ContactSnapshot; 5] {
    report.contacts.map(|contact| ContactSnapshot {
        flags: contact.flags,
        contact_id: contact.contact_id,
        x: contact.x,
        y: contact.y,
    })
}

#[test]
fn emits_lift_frame_when_contact_disappears() {
    let mut encoder = TouchReportEncoder::new();

    let down = encoder
        .encode(
            &TouchFrame {
                contacts: [
                    touch(7, 4000, 5000),
                    TouchContact::default(),
                    TouchContact::default(),
                    TouchContact::default(),
                    TouchContact::default(),
                ],
                contact_count: 1,
                button: false,
            },
            10,
        )
        .expect("down frame");
    let down_contacts = contacts(down);
    assert_eq!(down.contact_count, 1);
    assert_eq!(down_contacts[0].flags, FINGER_DOWN);

    let lift = encoder
        .encode(&TouchFrame::default(), 20)
        .expect("lift frame");
    let lift_contacts = contacts(lift);
    assert_eq!(lift.contact_count, 1);
    assert_eq!(lift_contacts[0].flags, FINGER_UP);
    assert_eq!(lift_contacts[0].contact_id, 7);

    assert!(encoder.encode(&TouchFrame::default(), 30).is_none());
}

#[test]
fn keeps_other_contact_active_while_lifting_missing_one() {
    let mut encoder = TouchReportEncoder::new();
    let initial = TouchFrame {
        contacts: [
            touch(1, 1000, 2000),
            touch(2, 3000, 4000),
            TouchContact::default(),
            TouchContact::default(),
            TouchContact::default(),
        ],
        contact_count: 2,
        button: true,
    };
    encoder.encode(&initial, 10).expect("initial frame");

    let report = encoder
        .encode(
            &TouchFrame {
                contacts: [
                    touch(2, 3200, 4200),
                    TouchContact::default(),
                    TouchContact::default(),
                    TouchContact::default(),
                    TouchContact::default(),
                ],
                contact_count: 1,
                button: false,
            },
            20,
        )
        .expect("mixed frame");
    let report_contacts = contacts(report);

    assert_eq!(report.button, 0);
    assert_eq!(report.contact_count, 2);
    assert!(report_contacts
        .iter()
        .any(|contact| contact.contact_id == 1 && contact.flags == FINGER_UP));
    assert!(report_contacts
        .iter()
        .any(|contact| contact.contact_id == 2 && contact.flags == FINGER_DOWN));
}

#[test]
fn report_order_is_present_then_lifted_then_new() {
    let mut encoder = TouchReportEncoder::new();
    let first = TouchFrame {
        contacts: [touch(1, 10, 10), touch(2, 20, 20), TouchContact::default(), TouchContact::default(), TouchContact::default()],
        contact_count: 2,
        button: false,
    };
    encoder.encode(&first, 1).expect("first");
    let second = TouchFrame {
        contacts: [touch(3, 30, 30), touch(2, 25, 25), TouchContact::default(), TouchContact::default(), TouchContact::default()],
        contact_count: 2,
        button: false,
    };
    let r = encoder.encode(&second, 2).expect("second");
    let c = contacts(r);
    assert_eq!(r.contact_count, 3);
    assert_eq!(c[0], ContactSnapshot { flags: FINGER_DOWN, contact_id: 2, x: 25, y: 25 });
    assert_eq!(c[1], ContactSnapshot { flags: FINGER_UP, contact_id: 1, x: 10, y: 10 });
    assert_eq!(c[2], ContactSnapshot { flags: FINGER_DOWN, contact_id: 3, x: 30, y: 30 });
    assert_eq!(c[3], ContactSnapshot { flags: 0, contact_id: 0, x: 0, y: 0 });
    assert_eq!(r.scan_time, 2);
}

#[test]
fn non_touching_contact_is_reported_once_and_not_tracked() {
    let mut encoder = TouchReportEncoder::new();
    let hover = TouchContact { contact_id: 9, x: 5, y: 6, touching: false, confident: true };
    let frame = TouchFrame {
        contacts: [hover, TouchContact::default(), TouchContact::default(), TouchContact::default(), TouchContact::default()],
        contact_count: 1,
        button: true,
    };
    let r = encoder.encode(&frame, 3).expect("hover frame");
    assert_eq!(r.contact_count, 1);
    assert_eq!(r.contacts[0].flags, FINGER_UP);
    assert_eq!(r.button, 1);
    assert!(encoder.encode(&TouchFrame::default(), 4).is_none());
}

#[test]
fn unconfident_touch_has_only_tip_switch() {
    let t = TrackedContact { contact_id: 1, x: 0, y: 0, confident: false, touching: true };
    assert_eq!(t.flags(), TIP_SWITCH);
    let t = TrackedContact { contact_id: 1, x: 0, y: 0, confident: false, touching: false };
    assert_eq!(t.flags(), 0);
}

#[test]
fn contact_count_is_capped_at_five() {
    let mut frame = TouchFrame::default();
    for i in 0..5 {
        frame.contacts[i] = touch(i as u32 + 1, 1, 1);
    }
    frame.contact_count = 9;
    assert_eq!(frame.contacts().len(), 5);
    let mut encoder = TouchReportEncoder::new();
    let r = encoder.encode(&frame, 0).expect("five");
    assert_eq!(r.contact_count, 5);
}

#[test]
fn reset_forgets_tracked_contacts() {
    let mut encoder = TouchReportEncoder::new();
    let frame = TouchFrame {
        contacts: [touch(4, 1, 1), TouchContact::default(), TouchContact::default(), TouchContact::default(), TouchContact::default()],
        contact_count: 1,
        button: false,
    };
    encoder.encode(&frame, 0).expect("down");
    encoder.reset();
    assert!(encoder.encode(&TouchFrame::default(), 1).is_none());
}

#[test]
fn find_contact_takes_first_match_among_populated() {
    let frame = TouchFrame {
        contacts: [touch(1, 1, 1), touch(2, 2, 2), touch(2, 3, 3), touch(5, 5, 5), TouchContact::default()],
        contact_count: 3,
        button: false,
    };
    assert_eq!(find_contact_by_id(&frame, 2).map(|t| t.x), Some(2));
    assert_eq!(find_contact_by_id(&frame, 5), None);
}

#[test]
fn report_bytes_follow_the_ptp_layout() {
    let mut report = PtpReport::default();
    report.contacts[0] = PtpContact { flags: FINGER_DOWN, contact_id: 0x0403_0201, x: 0x1234, y: 0xABCD };
    report.scan_time = 0x0102;
    report.contact_count = 1;
    report.button = 1;
    let bytes = report.to_bytes();
    assert_eq!(bytes.len(), 49);
    assert_eq!(&bytes[0..9], &[0x03, 0x01, 0x02, 0x03, 0x04, 0x34, 0x12, 0xCD, 0xAB]);
    assert!(bytes[9..45].iter().all(|b| *b == 0));
    assert_eq!(&bytes[45..49], &[0x02, 0x01, 1, 1]);
}

#[test]
fn single_touch_report_places_one_finger() {
    let r = single_touch_report(5000, 6000, 1, true, 50);
    assert_eq!(r.contact_count, 1);
    assert_eq!(r.contacts[0], PtpContact { flags: FINGER_DOWN, contact_id: 1, x: 5000, y: 6000 });
    assert_eq!(r.scan_time, 50);
    let up = single_touch_report(0, 0, 1, false, 100);
    assert_eq!(up.contact_count, 0);
    assert_eq!(up.contacts[0], PtpContact::default());
    assert_eq!(up.scan_time, 100);
    let bytes = up.to_bytes();
    assert_eq!(&bytes[45..47], &[100, 0]);
}
