//! Precision-touchpad (PTP) report types, report IDs, and the stateful
//! encoder that turns semantic touch frames into PTP input reports.
use vstd::prelude::*;

use crate::input::{populated, MAX_TOUCH_CONTACTS, TouchContact, TouchFrame};

verus! {

/// Input report: 5-finger multitouch + scan time + button.
pub const REPORTID_MULTITOUCH: u8 = 0x05;
/// Feature report: input mode (host writes 3 for PTP).
pub const REPORTID_REPORTMODE: u8 = 0x04;
/// Feature report: function switch (surface/button selective reporting).
pub const REPORTID_FUNCSWITCH: u8 = 0x06;
/// Feature report: device capabilities (max contacts, button type).
pub const REPORTID_DEVICE_CAPS: u8 = 0x07;
/// Feature report: PTPHQA certification blob (256 bytes).
pub const REPORTID_PTPHQA: u8 = 0x08;

/// Maximum simultaneous contacts reported to Windows.
pub const MAX_CONTACTS: u8 = 5;
/// Touchpad X coordinate maximum in logical units.
pub const LOGICAL_X_MAX: u16 = 12480;
/// Touchpad Y coordinate maximum in logical units.
pub const LOGICAL_Y_MAX: u16 = 7680;
/// Scale factor between logical units and advertised physical units.
pub const PHYSICAL_SCALE_DIVISOR: u16 = 10;
/// Touchpad X size in physical units advertised by the HID descriptor.
pub const PHYSICAL_X_MAX: u16 = LOGICAL_X_MAX / PHYSICAL_SCALE_DIVISOR;
/// Touchpad Y size in physical units advertised by the HID descriptor.
pub const PHYSICAL_Y_MAX: u16 = LOGICAL_Y_MAX / PHYSICAL_SCALE_DIVISOR;
/// Input-mode feature value with which a host selects PTP reporting.
pub const INPUT_MODE_PTP: u8 = 0x03;
/// Size in bytes of an encoded PTP input report (report ID excluded).
pub const PTP_REPORT_SIZE: usize = 49;

/// Flags bit 0: contact is intentional / confident.
pub const CONFIDENCE: u8 = 0x01;
/// Flags bit 1: contact is touching the surface.
pub const TIP_SWITCH: u8 = 0x02;
/// Flags byte for a confident finger that is touching the surface.
pub const FINGER_DOWN: u8 = 0x03;
/// Flags byte for a confident finger lift at the last reported position.
pub const FINGER_UP: u8 = 0x01;

/// A single finger slot inside a PTP input report: 1 byte flags, 4 byte
/// contact ID, 2 byte X, 2 byte Y (9 bytes on the wire).
#[derive(Clone, Copy, Default, Debug, PartialEq, Eq)]
pub struct PtpContact {
    /// Bit 0: confidence, bit 1: tip switch.
    pub flags: u8,
    /// Contact identifier (unique per tracked finger).
    pub contact_id: u32,
    /// X coordinate in logical units.
    pub x: u16,
    /// Y coordinate in logical units.
    pub y: u16,
}

impl PtpContact {
    /// An unused (all-zero) finger slot.
    pub open spec fn zero_spec() -> PtpContact {
        PtpContact { flags: 0, contact_id: 0, x: 0, y: 0 }
    }

    /// An unused (all-zero) finger slot.
    pub fn zero() -> (c: PtpContact)
        ensures
            c == Self::zero_spec(),
    {
        PtpContact { flags: 0, contact_id: 0, x: 0, y: 0 }
    }
}

/// Complete PTP input report (excluding the report ID byte).
///
/// On the wire: 5 contacts of 9 bytes, 2 bytes scan time, 1 byte contact
/// count, 1 byte button = 49 bytes.
#[derive(Clone, Copy, Debug, PartialEq, Eq)]
pub struct PtpReport {
    /// Up to 5 finger slots; unused slots are zeroed.
    pub contacts: [PtpContact; 5],
    /// Scan time in 100 us increments (wraps at u16::MAX).
    pub scan_time: u16,
    /// Number of contacts encoded in this report, including one-frame
    /// liftoff reports that keep confidence set while clearing tip switch.
    pub contact_count: u8,
    /// 1 if the clickpad button is pressed, 0 otherwise.
    pub button: u8,
}

/// Five finger slots holding `contacts` in order, zero-filled after them.
pub open spec fn padded_contacts(contacts: Seq<PtpContact>) -> Seq<PtpContact> {
    Seq::new(
        5,
        |i: int|
            if i < contacts.len() {
                contacts[i]
            } else {
                PtpContact::zero_spec()
            },
    )
}

/// Little-endian bytes of a 16-bit value.
pub open spec fn le_u16(v: u16) -> Seq<u8> {
    seq![(v % 256) as u8, (v / 256) as u8]
}

/// Little-endian bytes of a 32-bit value.
pub open spec fn le_u32(v: u32) -> Seq<u8> {
    seq![(v % 256) as u8, ((v / 256) % 256) as u8, ((v / 65536) % 256) as u8, (v / 16777216) as u8]
}

/// Wire layout of one finger slot.
pub open spec fn contact_layout(c: PtpContact) -> Seq<u8> {
    seq![c.flags] + le_u32(c.contact_id) + le_u16(c.x) + le_u16(c.y)
}

/// Wire layout of a sequence of finger slots, in order.
pub open spec fn contacts_layout(contacts: Seq<PtpContact>) -> Seq<u8>
    decreases contacts.len(),
{
    if contacts.len() == 0 {
        seq![]
    } else {
        contacts_layout(contacts.drop_last()) + contact_layout(contacts.last())
    }
}

impl PtpReport {
    /// The report with no contact, scan time 0 and the button released.
    pub open spec fn default_spec() -> PtpReport {
        PtpReport {
            contacts: [
                PtpContact::zero_spec(),
                PtpContact::zero_spec(),
                PtpContact::zero_spec(),
                PtpContact::zero_spec(),
                PtpContact::zero_spec(),
            ],
            scan_time: 0,
            contact_count: 0,
            button: 0,
        }
    }

    /// Wire layout of a report (the HID input report body).
    pub open spec fn layout(self) -> Seq<u8> {
        contacts_layout(self.contacts@) + le_u16(self.scan_time) + seq![self.contact_count, self.button]
    }

    /// The report's bytes in the PTP input-report layout.
    pub fn to_bytes(&self) -> (bytes: Vec<u8>)
        ensures
            bytes@ == self.layout(),
            bytes@.len() == PTP_REPORT_SIZE,
    {
        let mut bytes: Vec<u8> = Vec::new();
        let mut i: usize = 0;
        while i < 5
            invariant
                0 <= i <= 5,
                bytes@ == contacts_layout(self.contacts@.take(i as int)),
                bytes@.len() == 9 * i,
            decreases 5 - i,
        {
            push_contact(&mut bytes, &self.contacts[i]);
            assert(self.contacts@.take(i + 1).drop_last() == self.contacts@.take(i as int));
            i += 1;
        }
        assert(self.contacts@.take(5) == self.contacts@);
        push_le_u16(&mut bytes, self.scan_time);
        bytes.push(self.contact_count);
        bytes.push(self.button);
        assert(bytes@ =~= self.layout());
        bytes
    }
}

impl Default for PtpReport {
    fn default() -> (r: PtpReport)
        ensures
            r == PtpReport::default_spec(),
    {
        PtpReport {
            contacts: [
                PtpContact::zero(),
                PtpContact::zero(),
                PtpContact::zero(),
                PtpContact::zero(),
                PtpContact::zero(),
            ],
            scan_time: 0,
            contact_count: 0,
            button: 0,
        }
    }
}

fn push_le_u16(bytes: &mut Vec<u8>, v: u16)
    ensures
        final(bytes)@ == old(bytes)@ + le_u16(v),
{
    bytes.push((v % 256) as u8);
    bytes.push((v / 256) as u8);
    assert(final(bytes)@ =~= old(bytes)@ + le_u16(v));
}

fn push_le_u32(bytes: &mut Vec<u8>, v: u32)
    ensures
        final(bytes)@ == old(bytes)@ + le_u32(v),
{
    bytes.push((v % 256) as u8);
    bytes.push(((v / 256) % 256) as u8);
    bytes.push(((v / 65536) % 256) as u8);
    bytes.push((v / 16777216) as u8);
    assert(final(bytes)@ =~= old(bytes)@ + le_u32(v));
}

fn push_contact(bytes: &mut Vec<u8>, c: &PtpContact)
    ensures
        final(bytes)@ == old(bytes)@ + contact_layout(*c),
        final(bytes)@.len() == old(bytes)@.len() + 9,
{
    bytes.push(c.flags);
    push_le_u32(bytes, c.contact_id);
    push_le_u16(bytes, c.x);
    push_le_u16(bytes, c.y);
    assert(final(bytes)@ =~= old(bytes)@ + contact_layout(*c));
}

/// Whether an input-mode feature write selects PTP reporting.
pub open spec fn selects_ptp_mode(data: Seq<u8>) -> bool {
    data.len() > 0 && data[0] == INPUT_MODE_PTP
}

/// Whether the first byte of an input-mode feature write is the PTP mode (3).
pub fn is_ptp_input_mode(data: &[u8]) -> (ptp: bool)
    ensures
        ptp == selects_ptp_mode(data@),
{
    data.len() > 0 && data[0] == INPUT_MODE_PTP
}

/// A report with one finger at (x, y) touching (`finger_down`) or, with the
/// finger lifted, no contact at all.
pub open spec fn single_touch(x: u16, y: u16, contact_id: u32, finger_down: bool, scan_time: u16) -> PtpReport {
    if finger_down {
        PtpReport {
            contacts: [
                PtpContact { flags: FINGER_DOWN, contact_id, x, y },
                PtpContact::zero_spec(),
                PtpContact::zero_spec(),
                PtpContact::zero_spec(),
                PtpContact::zero_spec(),
            ],
            scan_time,
            contact_count: 1,
            button: 0,
        }
    } else {
        PtpReport { scan_time, ..PtpReport::default_spec() }
    }
}

/// Build a single-finger touch input report.
pub fn single_touch_report(x: u16, y: u16, contact_id: u32, finger_down: bool, scan_time: u16) -> (report: PtpReport)
    ensures
        report == single_touch(x, y, contact_id, finger_down, scan_time),
{
    let mut report = PtpReport::default();
    report.scan_time = scan_time;
    if finger_down {
        report.contacts[0] = PtpContact { flags: FINGER_DOWN, contact_id, x, y };
        report.contact_count = 1;
        assert(report.contacts =~= single_touch(x, y, contact_id, finger_down, scan_time).contacts);
    }
    report
}

// ---------------------------------------------------------------------------
// Contact tracking
// ---------------------------------------------------------------------------

/// A contact as remembered by the encoder between frames.
#[derive(Clone, Copy, Debug, Default, PartialEq, Eq)]
pub struct TrackedContact {
    /// Stable contact identifier.
    pub contact_id: u32,
    /// Last X coordinate.
    pub x: u16,
    /// Last Y coordinate.
    pub y: u16,
    /// Whether the contact is confident.
    pub confident: bool,
    /// Whether the contact touches the surface.
    pub touching: bool,
}

/// The tracked form of a semantic contact.
pub open spec fn tracked_of(c: TouchContact) -> TrackedContact {
    TrackedContact {
        contact_id: c.contact_id,
        x: c.x,
        y: c.y,
        confident: c.confident,
        touching: c.touching,
    }
}

/// The PTP flags byte of a tracked contact.
pub open spec fn flags_of(t: TrackedContact) -> u8 {
    if t.confident && t.touching {
        FINGER_DOWN
    } else if t.confident {
        FINGER_UP
    } else if t.touching {
        TIP_SWITCH
    } else {
        0
    }
}

/// A finger slot carrying a tracked contact with the given flags.
pub open spec fn slot_of(t: TrackedContact, flags: u8) -> PtpContact {
    PtpContact { flags, contact_id: t.contact_id, x: t.x, y: t.y }
}

impl TrackedContact {
    /// Remember a semantic contact.
    pub fn from_contact(contact: &TouchContact) -> (t: TrackedContact)
        ensures
            t == tracked_of(*contact),
            t.contact_id == contact.contact_id,
            t.x == contact.x,
            t.y == contact.y,
            t.confident == contact.confident,
            t.touching == contact.touching,
    {
        TrackedContact {
            contact_id: contact.contact_id,
            x: contact.x,
            y: contact.y,
            confident: contact.confident,
            touching: contact.touching,
        }
    }

    /// The finger slot for this contact with the given flags.
    pub fn into_report_contact(self, flags: u8) -> (c: PtpContact)
        ensures
            c == slot_of(self, flags),
            c.flags == flags,
            c.contact_id == self.contact_id,
            c.x == self.x,
            c.y == self.y,
    {
        PtpContact { flags, contact_id: self.contact_id, x: self.x, y: self.y }
    }

    /// PTP flags: confidence in bit 0, tip switch in bit 1.
    pub fn flags(self) -> (f: u8)
        ensures
            f == flags_of(self),
            f == (if self.confident { CONFIDENCE } else { 0 }) + (if self.touching { TIP_SWITCH } else { 0 }),
    {
        if self.confident && self.touching {
            FINGER_DOWN
        } else if self.confident {
            FINGER_UP
        } else if self.touching {
            TIP_SWITCH
        } else {
            0
        }
    }
}

/// The first contact of `contacts` with the given id, in tracked form.
pub open spec fn first_with_id(contacts: Seq<TouchContact>, id: u32) -> Option<TrackedContact>
    decreases contacts.len(),
{
    if contacts.len() == 0 {
        None
    } else {
        match first_with_id(contacts.drop_last(), id) {
            Some(t) => Some(t),
            None => if contacts.last().contact_id == id {
                Some(tracked_of(contacts.last()))
            } else {
                None
            },
        }
    }
}

/// Whether some held entry carries the given id.
pub open spec fn tracks_id(held: Seq<Option<TrackedContact>>, id: u32) -> bool {
    exists|i: int| 0 <= i < held.len() && #[trigger] entry_has_id(held[i], id)
}

/// Whether a held entry is present and carries the given id.
pub open spec fn entry_has_id(entry: Option<TrackedContact>, id: u32) -> bool {
    entry matches Some(t) && t.contact_id == id
}

/// Reports of the previously held contacts that are still in the frame,
/// with their current state, and those of them that stay held (touching).
pub open spec fn still_present(held: Seq<Option<TrackedContact>>, frame: Seq<TouchContact>) -> (
    Seq<PtpContact>,
    Seq<TrackedContact>,
)
    decreases held.len(),
{
    if held.len() == 0 {
        (seq![], seq![])
    } else {
        let (e, k) = still_present(held.drop_last(), frame);
        match held.last() {
            None => (e, k),
            Some(p) => match first_with_id(frame, p.contact_id) {
                None => (e, k),
                Some(c) => (
                    e.push(slot_of(c, flags_of(c))),
                    if c.touching {
                        k.push(c)
                    } else {
                        k
                    },
                ),
            },
        }
    }
}

/// Lift reports (confidence without tip switch, at the last position) for
/// the previously held contacts that left the frame, while the report,
/// already holding `before` slots, has room.
pub open spec fn lifted(held: Seq<Option<TrackedContact>>, frame: Seq<TouchContact>, before: nat) -> Seq<
    PtpContact,
>
    decreases held.len(),
{
    if held.len() == 0 {
        seq![]
    } else {
        let l = lifted(held.drop_last(), frame, before);
        if before + l.len() >= 5 {
            l
        } else {
            match held.last() {
                Some(p) => if first_with_id(frame, p.contact_id) is None {
                    l.push(slot_of(p, FINGER_UP))
                } else {
                    l
                },
                None => l,
            }
        }
    }
}

/// Reports of the frame's contacts that were not held before, while the
/// report (holding `before` slots) and the next held set (holding `kept`
/// contacts) have room, and those of them that become held (touching).
pub open spec fn arrivals(
    contacts: Seq<TouchContact>,
    held: Seq<Option<TrackedContact>>,
    before: nat,
    kept: nat,
) -> (Seq<PtpContact>, Seq<TrackedContact>)
    decreases contacts.len(),
{
    if contacts.len() == 0 {
        (seq![], seq![])
    } else {
        let (e, k) = arrivals(contacts.drop_last(), held, before, kept);
        let c = tracked_of(contacts.last());
        if before + e.len() >= 5 || kept + k.len() >= 5 || tracks_id(held, c.contact_id) {
            (e, k)
        } else {
            (
                e.push(slot_of(c, flags_of(c))),
                if c.touching {
                    k.push(c)
                } else {
                    k
                },
            )
        }
    }
}

/// The finger slots an encoder with state `held` reports for `frame`, and
/// the contacts it tracks afterwards.
pub open spec fn encode_step(held: Seq<Option<TrackedContact>>, frame: TouchFrame) -> (
    Seq<PtpContact>,
    Seq<TrackedContact>,
) {
    let contacts = populated(frame);
    let (present, kept) = still_present(held, contacts);
    let lifts = lifted(held, contacts, present.len());
    let (fresh, fresh_kept) = arrivals(contacts, held, present.len() + lifts.len(), kept.len());
    (present + lifts + fresh, kept + fresh_kept)
}

/// Five tracking entries holding `kept` in order, then empty entries.
pub open spec fn padded_tracked(kept: Seq<TrackedContact>) -> Seq<Option<TrackedContact>> {
    Seq::new(
        5,
        |i: int|
            if i < kept.len() {
                Some(kept[i])
            } else {
                None
            },
    )
}

/// The five empty tracking entries of a fresh encoder.
pub open spec fn no_tracking() -> Seq<Option<TrackedContact>> {
    Seq::new(5, |i: int| None)
}

/// Stateful encoder that turns semantic touch frames into Windows PTP reports.
#[derive(Debug)]
pub struct TouchReportEncoder {
    held: [Option<TrackedContact>; 5],
}

impl View for TouchReportEncoder {
    type V = Seq<Option<TrackedContact>>;

    closed spec fn view(&self) -> Seq<Option<TrackedContact>> {
        self.held@
    }
}

/// The first report of the frame's slots `emitted`, or nothing when empty.
pub open spec fn report_for(emitted: Seq<PtpContact>, frame: TouchFrame, scan_time: u16) -> Option<
    PtpReport,
> {
    if emitted.len() == 0 {
        None
    } else {
        Some(
            PtpReport {
                contacts: report_slots(emitted),
                scan_time,
                contact_count: emitted.len() as u8,
                button: if frame.button {
                    1
                } else {
                    0
                },
            },
        )
    }
}

/// The slot array whose view is `padded_contacts(emitted)`.
pub open spec fn report_slots(emitted: Seq<PtpContact>) -> [PtpContact; 5] {
    let p = padded_contacts(emitted);
    [p[0], p[1], p[2], p[3], p[4]]
}

impl TouchReportEncoder {
    /// Create a fresh encoder with no held contacts.
    pub fn new() -> (e: TouchReportEncoder)
        ensures
            e@ == no_tracking(),
    {
        let e = TouchReportEncoder { held: [None, None, None, None, None] };
        assert(e@ =~= no_tracking());
        e
    }

    /// Clear all held touch state.
    pub fn reset(&mut self)
        ensures
            final(self)@ == no_tracking(),
    {
        self.held = [None, None, None, None, None];
        assert(self@ =~= no_tracking());
    }

    /// Encode the next semantic touch frame.
    ///
    /// The report lists, in order: the previously held contacts still in
    /// the frame (current state), lifts for those that left it, then new
    /// contacts of the frame; afterwards the touching ones stay held.
    pub fn encode(&mut self, frame: &TouchFrame, scan_time: u16) -> (report: Option<PtpReport>)
        ensures
            final(self)@ == padded_tracked(encode_step(old(self)@, *frame).1),
            report == report_for(encode_step(old(self)@, *frame).0, *frame, scan_time),
            encode_step(old(self)@, *frame).0.len() <= 5,
            encode_step(old(self)@, *frame).1.len() <= 5,
            encode_step(old(self)@, *frame).0 == still_present(old(self)@, populated(*frame)).0
                + departures(old(self)@, populated(*frame)) + fresh_slots(populated(*frame), old(self)@).take(
                reported_count(old(self)@, populated(*frame)) - present_entries(old(self)@),
            ),
            encode_step(old(self)@, *frame).0.len() == reported_count(old(self)@, populated(*frame)),
            held_slots(encode_step(old(self)@, *frame).1) == tip_slots(encode_step(old(self)@, *frame).0),
    {
        proof {
            self.lemma_report_priority(*frame);
            self.lemma_held_are_tip_slots(*frame);
        }
        let ghost held = self@;
        let ghost contacts = populated(*frame);
        let mut emitted: Vec<PtpContact> = Vec::new();
        let mut kept: Vec<TrackedContact> = Vec::new();

        let mut i: usize = 0;
        while i < 5
            invariant
                0 <= i <= 5,
                held == self@,
                held.len() == 5,
                contacts == populated(*frame),
                emitted@ == still_present(held.take(i as int), contacts).0,
                kept@ == still_present(held.take(i as int), contacts).1,
                emitted@.len() <= i,
                kept@.len() <= emitted@.len(),
            decreases 5 - i,
        {
            assert(held.take(i + 1).drop_last() == held.take(i as int));
            if let Some(previous) = self.held[i] {
                if let Some(current) = find_contact_by_id(frame, previous.contact_id) {
                    emitted.push(current.into_report_contact(current.flags()));
                    if current.touching {
                        kept.push(current);
                    }
                }
            }
            i += 1;
        }
        assert(held.take(5) == held);
        let ghost present = emitted@;
        let ghost present_kept = kept@;

        let mut i: usize = 0;
        while i < 5
            invariant
                0 <= i <= 5,
                held == self@,
                held.len() == 5,
                contacts == populated(*frame),
                present.len() <= 5,
                emitted@ == present + lifted(held.take(i as int), contacts, present.len()),
                kept@ == present_kept,
                kept@.len() <= 5,
                emitted@.len() <= 5,
            decreases 5 - i,
        {
            assert(held.take(i + 1).drop_last() == held.take(i as int));
            if emitted.len() < 5 {
                if let Some(previous) = self.held[i] {
                    if find_contact_by_id(frame, previous.contact_id).is_none() {
                        emitted.push(previous.into_report_contact(FINGER_UP));
                    }
                }
            }
            i += 1;
        }
        let ghost before_fresh = emitted@;

        let current_contacts = frame.contacts();
        let mut j: usize = 0;
        while j < current_contacts.len()
            invariant
                0 <= j <= current_contacts@.len(),
                current_contacts@ == contacts,
                held == self@,
                held.len() == 5,
                contacts == populated(*frame),
                before_fresh.len() <= 5,
                present_kept.len() <= 5,
                emitted@ == before_fresh + arrivals(
                    contacts.take(j as int),
                    held,
                    before_fresh.len(),
                    present_kept.len(),
                ).0,
                kept@ == present_kept + arrivals(
                    contacts.take(j as int),
                    held,
                    before_fresh.len(),
                    present_kept.len(),
                ).1,
                kept@.len() <= 5,
                emitted@.len() <= 5,
            decreases current_contacts@.len() - j,
        {
            assert(contacts.take(j + 1).drop_last() == contacts.take(j as int));
            if emitted.len() < 5 && kept.len() < 5 {
                let current = TrackedContact::from_contact(&current_contacts[j]);
                if !self.tracks(current.contact_id) {
                    emitted.push(current.into_report_contact(current.flags()));
                    if current.touching {
                        kept.push(current);
                    }
                }
            }
            j += 1;
        }
        assert(contacts.take(contacts.len() as int) == contacts);
        assert(emitted@ =~= encode_step(held, *frame).0);
        assert(kept@ =~= encode_step(held, *frame).1);

        self.held = pad_tracked(&kept);
        let count = emitted.len();
        if count > 0 {
            let report = PtpReport {
                contacts: pad_contacts(&emitted),
                scan_time,
                contact_count: count as u8,
                button: if frame.button {
                    1
                } else {
                    0
                },
            };
            assert(report.contacts =~= report_slots(emitted@));
            Some(report)
        } else {
            None
        }
    }

    /// Whether some held entry carries `id`.
    fn tracks(&self, id: u32) -> (found: bool)
        ensures
            found == tracks_id(self@, id),
    {
        let mut i: usize = 0;
        while i < 5
            invariant
                0 <= i <= 5,
                self@.len() == 5,
                forall|k: int| 0 <= k < i ==> !entry_has_id(#[trigger] self@[k], id),
            decreases 5 - i,
        {
            if let Some(t) = self.held[i] {
                if t.contact_id == id {
                    assert(entry_has_id(self@[i as int], id));
                    return true;
                }
            }
            i += 1;
        }
        false
    }
}

fn pad_contacts(v: &Vec<PtpContact>) -> (slots: [PtpContact; 5])
    requires
        v@.len() <= 5,
    ensures
        slots@ == padded_contacts(v@),
{
    let c0 = if 0 < v.len() { v[0] } else { PtpContact::zero() };
    let c1 = if 1 < v.len() { v[1] } else { PtpContact::zero() };
    let c2 = if 2 < v.len() { v[2] } else { PtpContact::zero() };
    let c3 = if 3 < v.len() { v[3] } else { PtpContact::zero() };
    let c4 = if 4 < v.len() { v[4] } else { PtpContact::zero() };
    let slots = [c0, c1, c2, c3, c4];
    assert(slots@ =~= padded_contacts(v@));
    slots
}

fn pad_tracked(v: &Vec<TrackedContact>) -> (entries: [Option<TrackedContact>; 5])
    requires
        v@.len() <= 5,
    ensures
        entries@ == padded_tracked(v@),
{
    let t0 = if 0 < v.len() { Some(v[0]) } else { None };
    let t1 = if 1 < v.len() { Some(v[1]) } else { None };
    let t2 = if 2 < v.len() { Some(v[2]) } else { None };
    let t3 = if 3 < v.len() { Some(v[3]) } else { None };
    let t4 = if 4 < v.len() { Some(v[4]) } else { None };
    let entries = [t0, t1, t2, t3, t4];
    assert(entries@ =~= padded_tracked(v@));
    entries
}

/// If a prefix already holds a contact with the id, the whole sequence
/// finds that same contact first.
proof fn lemma_first_with_id_prefix(s: Seq<TouchContact>, n: int, id: u32)
    requires
        0 <= n <= s.len(),
        first_with_id(s.take(n), id) is Some,
    ensures
        first_with_id(s, id) == first_with_id(s.take(n), id),
    decreases s.len() - n,
{
    if n < s.len() {
        assert(s.take(n + 1).drop_last() == s.take(n));
        lemma_first_with_id_prefix(s, n + 1, id);
    } else {
        assert(s.take(n) == s);
    }
}

/// The first contact of the frame's populated contacts with this id.
pub fn find_contact_by_id(frame: &TouchFrame, contact_id: u32) -> (found: Option<TrackedContact>)
    ensures
        found == first_with_id(populated(*frame), contact_id),
{
    let contacts = frame.contacts();
    let mut j: usize = 0;
    while j < contacts.len()
        invariant
            0 <= j <= contacts@.len(),
            contacts@ == populated(*frame),
            first_with_id(contacts@.take(j as int), contact_id) is None,
        decreases contacts@.len() - j,
    {
        assert(contacts@.take(j + 1).drop_last() == contacts@.take(j as int));
        if contacts[j].contact_id == contact_id {
            let t = TrackedContact::from_contact(&contacts[j]);
            proof {
                lemma_first_with_id_prefix(contacts@, j + 1, contact_id);
            }
            return Some(t);
        }
        j += 1;
    }
    assert(contacts@.take(contacts@.len() as int) == contacts@);
    None
}

// ---------------------------------------------------------------------------
// Laws of the encoder
// ---------------------------------------------------------------------------

/// Number of present entries among the held entries.
pub open spec fn present_entries(held: Seq<Option<TrackedContact>>) -> nat
    decreases held.len(),
{
    if held.len() == 0 {
        0
    } else {
        present_entries(held.drop_last()) + if held.last() is Some {
            1nat
        } else {
            0nat
        }
    }
}

/// Lift slots for every held contact missing from the frame (no capacity limit).
pub open spec fn departures(held: Seq<Option<TrackedContact>>, frame: Seq<TouchContact>) -> Seq<PtpContact>
    decreases held.len(),
{
    if held.len() == 0 {
        seq![]
    } else {
        let l = departures(held.drop_last(), frame);
        match held.last() {
            Some(p) => if first_with_id(frame, p.contact_id) is None {
                l.push(slot_of(p, FINGER_UP))
            } else {
                l
            },
            None => l,
        }
    }
}

proof fn lemma_present_plus_departures(held: Seq<Option<TrackedContact>>, frame: Seq<TouchContact>)
    ensures
        still_present(held, frame).0.len() + departures(held, frame).len() == present_entries(held),
        present_entries(held) <= held.len(),
    decreases held.len(),
{
    if held.len() > 0 {
        lemma_present_plus_departures(held.drop_last(), frame);
    }
}

proof fn lemma_lifted_is_departures(held: Seq<Option<TrackedContact>>, frame: Seq<TouchContact>, before: nat)
    requires
        before + departures(held, frame).len() <= 5,
    ensures
        lifted(held, frame, before) == departures(held, frame),
    decreases held.len(),
{
    if held.len() > 0 {
        lemma_lifted_is_departures(held.drop_last(), frame, before);
    }
}

proof fn lemma_departure_listed(held: Seq<Option<TrackedContact>>, frame: Seq<TouchContact>, i: int)
    requires
        0 <= i < held.len(),
        held[i] is Some,
        first_with_id(frame, held[i]->Some_0.contact_id) is None,
    ensures
        departures(held, frame).contains(slot_of(held[i]->Some_0, FINGER_UP)),
    decreases held.len(),
{
    let l = departures(held.drop_last(), frame);
    if i < held.len() - 1 {
        assert(held.drop_last()[i] == held[i]);
        lemma_departure_listed(held.drop_last(), frame, i);
        let k = choose|k: int| 0 <= k < l.len() && l[k] == slot_of(held[i]->Some_0, FINGER_UP);
        assert(departures(held, frame)[k] == l[k]);
    } else {
        assert(departures(held, frame).last() == slot_of(held[i]->Some_0, FINGER_UP));
    }
}

proof fn lemma_first_with_id_found(contacts: Seq<TouchContact>, id: u32)
    ensures
        first_with_id(contacts, id) is None ==> forall|j: int|
            0 <= j < contacts.len() ==> (#[trigger] contacts[j]).contact_id != id,
        first_with_id(contacts, id) matches Some(c) ==> c.contact_id == id && exists|j: int|
            0 <= j < contacts.len() && c == tracked_of(#[trigger] contacts[j]),
    decreases contacts.len(),
{
    if contacts.len() > 0 {
        let init = contacts.drop_last();
        lemma_first_with_id_found(init, id);
        if let Some(c) = first_with_id(init, id) {
            let j = choose|j: int| 0 <= j < init.len() && c == tracked_of(#[trigger] init[j]);
            assert(contacts[j] == init[j]);
        } else {
            assert forall|j: int| 0 <= j < contacts.len() - 1 implies (#[trigger] contacts[j]).contact_id
                != id by {
                assert(contacts[j] == init[j]);
            }
            assert(contacts[contacts.len() - 1] == contacts.last());
        }
    }
}

/// Whether `c` is the tracked form of a touching contact of `contacts`.
pub open spec fn touching_member(c: TrackedContact, contacts: Seq<TouchContact>) -> bool {
    c.touching && exists|j: int| 0 <= j < contacts.len() && c == tracked_of(#[trigger] contacts[j])
}

proof fn lemma_still_present_kept(held: Seq<Option<TrackedContact>>, frame: Seq<TouchContact>)
    ensures
        forall|k: int|
            0 <= k < still_present(held, frame).1.len() ==> touching_member(
                #[trigger] still_present(held, frame).1[k],
                frame,
            ),
    decreases held.len(),
{
    if held.len() > 0 {
        lemma_still_present_kept(held.drop_last(), frame);
        let prev = still_present(held.drop_last(), frame).1;
        let cur = still_present(held, frame).1;
        if let Some(p) = held.last() {
            lemma_first_with_id_found(frame, p.contact_id);
        }
        assert forall|k: int| 0 <= k < cur.len() implies touching_member(#[trigger] cur[k], frame) by {
            if k < prev.len() {
                assert(cur[k] == prev[k]);
            }
        }
    }
}

proof fn lemma_arrivals_kept(contacts: Seq<TouchContact>, held: Seq<Option<TrackedContact>>, before: nat, kept: nat)
    ensures
        forall|k: int|
            0 <= k < arrivals(contacts, held, before, kept).1.len() ==> touching_member(
                #[trigger] arrivals(contacts, held, before, kept).1[k],
                contacts,
            ),
    decreases contacts.len(),
{
    if contacts.len() > 0 {
        let init = contacts.drop_last();
        lemma_arrivals_kept(init, held, before, kept);
        let prev = arrivals(init, held, before, kept).1;
        assert forall|k: int| 0 <= k < prev.len() implies touching_member(
            #[trigger] prev[k],
            contacts,
        ) by {
            let j = choose|j: int| 0 <= j < init.len() && prev[k] == tracked_of(#[trigger] init[j]);
            assert(contacts[j] == init[j]);
        }
        assert(contacts[contacts.len() - 1] == contacts.last());
    }
}

impl TouchReportEncoder {
    /// A finger that was tracked and is missing from the next frame is
    /// reported in that frame as a lift (confidence set, tip switch clear)
    /// at its last known position, and is no longer tracked afterwards.
    pub proof fn lemma_missing_contact_lifts(&self, frame: TouchFrame, i: int)
        requires
            0 <= i < 5,
            self@[i] is Some,
            first_with_id(populated(frame), self@[i]->Some_0.contact_id) is None,
        ensures
            encode_step(self@, frame).0.contains(slot_of(self@[i]->Some_0, FINGER_UP)),
            forall|k: int|
                0 <= k < encode_step(self@, frame).1.len() ==> (#[trigger] encode_step(
                    self@,
                    frame,
                ).1[k]).contact_id != self@[i]->Some_0.contact_id,
    {
        let held = self@;
        let contacts = populated(frame);
        let p = held[i]->Some_0;
        lemma_present_plus_departures(held, contacts);
        let (present, pk) = still_present(held, contacts);
        lemma_lifted_is_departures(held, contacts, present.len());
        lemma_departure_listed(held, contacts, i);
        let lifts = lifted(held, contacts, present.len());
        let (fresh, fk) = arrivals(contacts, held, present.len() + lifts.len(), pk.len());
        let all = present + lifts + fresh;
        let k = choose|k: int| 0 <= k < lifts.len() && lifts[k] == slot_of(p, FINGER_UP);
        assert(all[present.len() + k] == lifts[k]);
        lemma_first_with_id_found(contacts, p.contact_id);
        lemma_still_present_kept(held, contacts);
        lemma_arrivals_kept(contacts, held, present.len() + lifts.len(), pk.len());
        let next = pk + fk;
        assert forall|k: int| 0 <= k < next.len() implies (#[trigger] next[k]).contact_id != p.contact_id by {
            if k < pk.len() {
                assert(touching_member(pk[k], contacts));
            } else {
                assert(touching_member(fk[k - pk.len()], contacts));
            }
        }
    }

    /// Only contacts touching the surface in the frame stay tracked after it.
    pub proof fn lemma_only_touching_stay_tracked(&self, frame: TouchFrame)
        ensures
            forall|k: int|
                0 <= k < encode_step(self@, frame).1.len() ==> touching_member(
                    #[trigger] encode_step(self@, frame).1[k],
                    populated(frame),
                ),
    {
        let held = self@;
        let contacts = populated(frame);
        let (present, pk) = still_present(held, contacts);
        let lifts = lifted(held, contacts, present.len());
        let (fresh, fk) = arrivals(contacts, held, present.len() + lifts.len(), pk.len());
        lemma_still_present_kept(held, contacts);
        lemma_arrivals_kept(contacts, held, present.len() + lifts.len(), pk.len());
        let next = pk + fk;
        assert forall|k: int| 0 <= k < next.len() implies touching_member(#[trigger] next[k], contacts) by {
            if k < pk.len() {
                assert(next[k] == pk[k]);
            } else {
                assert(next[k] == fk[k - pk.len()]);
            }
        }
    }

    /// An encoder tracking nothing reports nothing for a frame without contacts.
    pub proof fn lemma_idle_reports_nothing(&self, frame: TouchFrame, scan_time: u16)
        requires
            self@ == no_tracking(),
            frame.contact_count == 0,
        ensures
            report_for(encode_step(self@, frame).0, frame, scan_time) is None,
            encode_step(self@, frame).1.len() == 0,
    {
        let held = self@;
        let contacts = populated(frame);
        assert(contacts.len() == 0);
        lemma_nothing_held(held, contacts);
    }
}

proof fn lemma_nothing_held(held: Seq<Option<TrackedContact>>, frame: Seq<TouchContact>)
    requires
        forall|i: int| 0 <= i < held.len() ==> #[trigger] held[i] is None,
    ensures
        still_present(held, frame).0.len() == 0,
        still_present(held, frame).1.len() == 0,
        lifted(held, frame, 0) == Seq::<PtpContact>::empty(),
    decreases held.len(),
{
    if held.len() > 0 {
        lemma_nothing_held(held.drop_last(), frame);
        assert(held[held.len() - 1] is None);
    }
}

proof fn lemma_still_present_listed(held: Seq<Option<TrackedContact>>, frame: Seq<TouchContact>, i: int)
    requires
        0 <= i < held.len(),
        held[i] is Some,
        first_with_id(frame, held[i]->Some_0.contact_id) is Some,
    ensures
        ({
            let c = first_with_id(frame, held[i]->Some_0.contact_id)->Some_0;
            &&& still_present(held, frame).0.contains(slot_of(c, flags_of(c)))
            &&& c.touching ==> still_present(held, frame).1.contains(c)
        }),
    decreases held.len(),
{
    let c = first_with_id(frame, held[i]->Some_0.contact_id)->Some_0;
    let (e0, k0) = still_present(held.drop_last(), frame);
    let (e, k) = still_present(held, frame);
    if i < held.len() - 1 {
        assert(held.drop_last()[i] == held[i]);
        lemma_still_present_listed(held.drop_last(), frame, i);
        let a = choose|a: int| 0 <= a < e0.len() && e0[a] == slot_of(c, flags_of(c));
        assert(e[a] == e0[a]);
        if c.touching {
            let b = choose|b: int| 0 <= b < k0.len() && k0[b] == c;
            assert(k[b] == k0[b]);
        }
    } else {
        assert(e.last() == slot_of(c, flags_of(c)));
        if c.touching {
            assert(k.last() == c);
        }
    }
}

impl TouchReportEncoder {
    /// A tracked finger that is still in the frame is reported with its
    /// current position and flags, and stays tracked while it touches.
    pub proof fn lemma_present_contact_reported(&self, frame: TouchFrame, i: int)
        requires
            0 <= i < self@.len(),
            self@[i] is Some,
            first_with_id(populated(frame), self@[i]->Some_0.contact_id) is Some,
        ensures
            ({
                let c = first_with_id(populated(frame), self@[i]->Some_0.contact_id)->Some_0;
                &&& encode_step(self@, frame).0.contains(slot_of(c, flags_of(c)))
                &&& c.touching ==> encode_step(self@, frame).1.contains(c)
            }),
    {
        let held = self@;
        let contacts = populated(frame);
        let c = first_with_id(contacts, held[i]->Some_0.contact_id)->Some_0;
        lemma_still_present_listed(held, contacts, i);
        let (present, pk) = still_present(held, contacts);
        let lifts = lifted(held, contacts, present.len());
        let (fresh, fk) = arrivals(contacts, held, present.len() + lifts.len(), pk.len());
        let a = choose|a: int| 0 <= a < present.len() && present[a] == slot_of(c, flags_of(c));
        assert((present + lifts + fresh)[a] == present[a]);
        if c.touching {
            let b = choose|b: int| 0 <= b < pk.len() && pk[b] == c;
            assert((pk + fk)[b] == pk[b]);
        }
    }
}

/// Whether no contact is held.
pub open spec fn nothing_held(held: Seq<Option<TrackedContact>>) -> bool {
    forall|i: int| 0 <= i < held.len() ==> #[trigger] held[i] is None
}

proof fn lemma_arrivals_nonempty(contacts: Seq<TouchContact>, held: Seq<Option<TrackedContact>>)
    requires
        contacts.len() > 0,
        nothing_held(held),
    ensures
        arrivals(contacts, held, 0, 0).0.len() > 0,
    decreases contacts.len(),
{
    let c = tracked_of(contacts.last());
    let (e, k) = arrivals(contacts.drop_last(), held, 0, 0);
    if tracks_id(held, c.contact_id) {
        let i = choose|i: int| 0 <= i < held.len() && #[trigger] entry_has_id(held[i], c.contact_id);
        assert(held[i] is None);
    }
    if contacts.len() > 1 {
        lemma_arrivals_nonempty(contacts.drop_last(), held);
        assert(arrivals(contacts, held, 0, 0).0.len() >= e.len());
    } else {
        assert(e.len() == 0 && k.len() == 0);
        assert(arrivals(contacts, held, 0, 0).0 == e.push(slot_of(c, flags_of(c))));
    }
}

impl TouchReportEncoder {
    /// Encoding gives no report exactly when nothing was held and the frame
    /// has no contact.
    pub proof fn lemma_no_report_iff_idle(&self, frame: TouchFrame, scan_time: u16)
        ensures
            report_for(encode_step(self@, frame).0, frame, scan_time) is None <==> (nothing_held(self@)
                && populated(frame).len() == 0),
    {
        let held = self@;
        let contacts = populated(frame);
        let (present, pk) = still_present(held, contacts);
        let lifts = lifted(held, contacts, present.len());
        let (fresh, fk) = arrivals(contacts, held, present.len() + lifts.len(), pk.len());
        let all = present + lifts + fresh;
        if nothing_held(held) {
            lemma_nothing_held(held, contacts);
            if contacts.len() > 0 {
                lemma_arrivals_nonempty(contacts, held);
                assert(all.len() > 0);
            } else {
                assert(fresh.len() == 0);
            }
        } else {
            let i = choose|i: int| 0 <= i < held.len() && !(#[trigger] held[i] is None);
            let p = held[i]->Some_0;
            if first_with_id(contacts, p.contact_id) is Some {
                lemma_still_present_listed(held, contacts, i);
                assert(present.len() > 0);
            } else {
                lemma_present_plus_departures(held, contacts);
                lemma_lifted_is_departures(held, contacts, present.len());
                lemma_departure_listed(held, contacts, i);
                assert(lifts.len() > 0);
            }
            assert(all.len() > 0);
        }
    }
}

/// Whether a flags byte has the tip switch set.
pub open spec fn has_tip(flags: u8) -> bool {
    flags & TIP_SWITCH != 0
}

/// The slots of `slots` whose tip switch is set, in order.
pub open spec fn tip_slots(slots: Seq<PtpContact>) -> Seq<PtpContact>
    decreases slots.len(),
{
    if slots.len() == 0 {
        seq![]
    } else {
        tip_slots(slots.drop_last()) + if has_tip(slots.last().flags) {
            seq![slots.last()]
        } else {
            seq![]
        }
    }
}

/// The slots reporting held contacts with their own flags, in order.
pub open spec fn held_slots(kept: Seq<TrackedContact>) -> Seq<PtpContact>
    decreases kept.len(),
{
    if kept.len() == 0 {
        seq![]
    } else {
        held_slots(kept.drop_last()).push(slot_of(kept.last(), flags_of(kept.last())))
    }
}

proof fn lemma_flags_tip(t: TrackedContact)
    ensures
        has_tip(flags_of(t)) == t.touching,
        !has_tip(FINGER_UP),
{
    assert(0x03u8 & 0x02u8 != 0 && 0x02u8 & 0x02u8 != 0 && 0x01u8 & 0x02u8 == 0 && 0u8 & 0x02u8 == 0)
        by (bit_vector);
}

proof fn lemma_tip_slots_append(a: Seq<PtpContact>, b: Seq<PtpContact>)
    ensures
        tip_slots(a + b) == tip_slots(a) + tip_slots(b),
    decreases b.len(),
{
    if b.len() == 0 {
        assert(a + b == a);
        assert(tip_slots(a) + tip_slots(b) == tip_slots(a));
    } else {
        lemma_tip_slots_append(a, b.drop_last());
        assert((a + b).drop_last() == a + b.drop_last());
        assert((a + b).last() == b.last());
    }
}

proof fn lemma_held_slots_append(a: Seq<TrackedContact>, b: Seq<TrackedContact>)
    ensures
        held_slots(a + b) == held_slots(a) + held_slots(b),
    decreases b.len(),
{
    if b.len() == 0 {
        assert(a + b == a);
        assert(held_slots(a) + held_slots(b) == held_slots(a));
    } else {
        lemma_held_slots_append(a, b.drop_last());
        assert((a + b).drop_last() == a + b.drop_last());
        assert((a + b).last() == b.last());
    }
}

proof fn lemma_still_present_tips(held: Seq<Option<TrackedContact>>, frame: Seq<TouchContact>)
    ensures
        tip_slots(still_present(held, frame).0) == held_slots(still_present(held, frame).1),
    decreases held.len(),
{
    if held.len() > 0 {
        lemma_still_present_tips(held.drop_last(), frame);
        let (e, k) = still_present(held.drop_last(), frame);
        if let Some(p) = held.last() {
            if let Some(c) = first_with_id(frame, p.contact_id) {
                lemma_flags_tip(c);
                let e2 = e.push(slot_of(c, flags_of(c)));
                assert(e2.drop_last() == e);
                if c.touching {
                    let k2 = k.push(c);
                    assert(k2.drop_last() == k);
                    assert(tip_slots(e2) =~= held_slots(k2));
                } else {
                    assert(tip_slots(e2) =~= held_slots(k));
                }
            }
        }
    }
}

proof fn lemma_lifted_tips(held: Seq<Option<TrackedContact>>, frame: Seq<TouchContact>, before: nat)
    ensures
        tip_slots(lifted(held, frame, before)) == Seq::<PtpContact>::empty(),
    decreases held.len(),
{
    if held.len() > 0 {
        lemma_lifted_tips(held.drop_last(), frame, before);
        let l = lifted(held.drop_last(), frame, before);
        let l2 = lifted(held, frame, before);
        if l2.len() > l.len() {
            let p = held.last()->Some_0;
            lemma_flags_tip(p);
            assert(l2.drop_last() == l);
            assert(tip_slots(l2) =~= Seq::<PtpContact>::empty());
        }
    }
}

proof fn lemma_arrivals_tips(contacts: Seq<TouchContact>, held: Seq<Option<TrackedContact>>, before: nat, kept: nat)
    ensures
        tip_slots(arrivals(contacts, held, before, kept).0) == held_slots(arrivals(contacts, held, before, kept).1),
    decreases contacts.len(),
{
    if contacts.len() > 0 {
        lemma_arrivals_tips(contacts.drop_last(), held, before, kept);
        let (e, k) = arrivals(contacts.drop_last(), held, before, kept);
        let c = tracked_of(contacts.last());
        lemma_flags_tip(c);
        let e2 = e.push(slot_of(c, flags_of(c)));
        assert(e2.drop_last() == e);
        let k2 = k.push(c);
        assert(k2.drop_last() == k);
        assert(tip_slots(e2) =~= held_slots(k2) || !c.touching);
        if !c.touching {
            assert(tip_slots(e2) =~= held_slots(k));
        }
    }
}

impl TouchReportEncoder {
    /// After a frame, the encoder holds exactly the contacts its report
    /// carried with the tip switch set (in report order): a contact lifted
    /// or not touching is reported in one frame only.
    pub proof fn lemma_held_are_tip_slots(&self, frame: TouchFrame)
        ensures
            held_slots(encode_step(self@, frame).1) == tip_slots(encode_step(self@, frame).0),
    {
        let held = self@;
        let contacts = populated(frame);
        let (present, pk) = still_present(held, contacts);
        let lifts = lifted(held, contacts, present.len());
        let (fresh, fk) = arrivals(contacts, held, present.len() + lifts.len(), pk.len());
        lemma_still_present_tips(held, contacts);
        lemma_lifted_tips(held, contacts, present.len());
        lemma_arrivals_tips(contacts, held, present.len() + lifts.len(), pk.len());
        lemma_tip_slots_append(present, lifts);
        lemma_tip_slots_append(present + lifts, fresh);
        lemma_held_slots_append(pk, fk);
        assert(tip_slots(present) + Seq::<PtpContact>::empty() == tip_slots(present));
    }
}

/// The slots of the frame's contacts whose ids are not held, in frame order
/// (with no limit on their number).
pub open spec fn fresh_slots(contacts: Seq<TouchContact>, held: Seq<Option<TrackedContact>>) -> Seq<
    PtpContact,
>
    decreases contacts.len(),
{
    if contacts.len() == 0 {
        seq![]
    } else {
        let f = fresh_slots(contacts.drop_last(), held);
        let c = tracked_of(contacts.last());
        if tracks_id(held, c.contact_id) {
            f
        } else {
            f.push(slot_of(c, flags_of(c)))
        }
    }
}

/// The number of contacts a frame concerns: the held ones (still present
/// or lifted) and the frame's contacts that are not held.
pub open spec fn concerned_count(held: Seq<Option<TrackedContact>>, contacts: Seq<TouchContact>) -> nat {
    present_entries(held) + fresh_slots(contacts, held).len()
}

/// The number of slots a report fills: all concerned contacts, at most five.
pub open spec fn reported_count(held: Seq<Option<TrackedContact>>, contacts: Seq<TouchContact>) -> nat {
    if concerned_count(held, contacts) <= 5 {
        concerned_count(held, contacts)
    } else {
        5
    }
}

proof fn lemma_still_present_kept_len(held: Seq<Option<TrackedContact>>, frame: Seq<TouchContact>)
    ensures
        still_present(held, frame).1.len() <= still_present(held, frame).0.len(),
    decreases held.len(),
{
    if held.len() > 0 {
        lemma_still_present_kept_len(held.drop_last(), frame);
    }
}

proof fn lemma_arrivals_prefix(contacts: Seq<TouchContact>, held: Seq<Option<TrackedContact>>, before: nat, kept: nat)
    requires
        before <= 5,
        kept <= before,
    ensures
        arrivals(contacts, held, before, kept).1.len() <= arrivals(contacts, held, before, kept).0.len(),
        arrivals(contacts, held, before, kept).0 == fresh_slots(contacts, held).take(
            if fresh_slots(contacts, held).len() <= 5 - before {
                fresh_slots(contacts, held).len() as int
            } else {
                5 - before
            },
        ),
    decreases contacts.len(),
{
    let f = fresh_slots(contacts, held);
    if contacts.len() == 0 {
        assert(f.take(0) =~= Seq::<PtpContact>::empty());
    } else {
        let init = contacts.drop_last();
        lemma_arrivals_prefix(init, held, before, kept);
        let (e, k) = arrivals(init, held, before, kept);
        let f0 = fresh_slots(init, held);
        let c = tracked_of(contacts.last());
        if !tracks_id(held, c.contact_id) {
            if before + e.len() >= 5 {
                assert(f.take(5 - before) =~= f0.take(5 - before));
            } else {
                assert(e =~= f0);
                assert(f.take(f.len() as int) =~= f);
            }
        }
    }
}

impl TouchReportEncoder {
    /// Slot priority: a report lists first the held contacts still in the
    /// frame (current state), then lifts of the held contacts that left it,
    /// then the frame's new contacts in frame order, as many as fit in five
    /// slots; so it fills as many slots as there are concerned contacts, at
    /// most five.
    pub proof fn lemma_report_priority(&self, frame: TouchFrame)
        ensures
            encode_step(self@, frame).0 == still_present(self@, populated(frame)).0 + departures(
                self@,
                populated(frame),
            ) + fresh_slots(populated(frame), self@).take(
                reported_count(self@, populated(frame)) - present_entries(self@),
            ),
            encode_step(self@, frame).0.len() == reported_count(self@, populated(frame)),
            present_entries(self@) <= reported_count(self@, populated(frame)),
    {
        let held = self@;
        let contacts = populated(frame);
        let (present, pk) = still_present(held, contacts);
        lemma_present_plus_departures(held, contacts);
        lemma_lifted_is_departures(held, contacts, present.len());
        lemma_still_present_kept_len(held, contacts);
        let lifts = lifted(held, contacts, present.len());
        let before = present.len() + lifts.len();
        assert(before == present_entries(held));
        lemma_arrivals_prefix(contacts, held, before, pk.len());
    }
}

/// Whether the held contacts carry pairwise distinct ids.
pub open spec fn distinct_held_ids(held: Seq<Option<TrackedContact>>) -> bool {
    forall|i: int, j: int|
        0 <= i < held.len() && 0 <= j < held.len() && i != j && #[trigger] held[i] is Some
            && #[trigger] held[j] is Some ==> held[i]->Some_0.contact_id != held[j]->Some_0.contact_id
}

/// Whether the contacts carry pairwise distinct ids.
pub open spec fn distinct_frame_ids(contacts: Seq<TouchContact>) -> bool {
    forall|i: int, j: int|
        0 <= i < contacts.len() && 0 <= j < contacts.len() && i != j ==> (#[trigger] contacts[i]).contact_id
            != (#[trigger] contacts[j]).contact_id
}

/// Whether the slots carry pairwise distinct ids.
pub open spec fn distinct_slot_ids(slots: Seq<PtpContact>) -> bool {
    forall|i: int, j: int|
        0 <= i < slots.len() && 0 <= j < slots.len() && i != j ==> (#[trigger] slots[i]).contact_id
            != (#[trigger] slots[j]).contact_id
}

/// Whether some contact of `contacts` carries `id`.
pub open spec fn frame_has_id(contacts: Seq<TouchContact>, id: u32) -> bool {
    exists|j: int| 0 <= j < contacts.len() && (#[trigger] contacts[j]).contact_id == id
}

proof fn lemma_tracks_prefix(held: Seq<Option<TrackedContact>>, id: u32)
    requires
        held.len() > 0,
    ensures
        tracks_id(held, id) <==> (tracks_id(held.drop_last(), id) || entry_has_id(held.last(), id)),
{
    if tracks_id(held, id) {
        let i = choose|i: int| 0 <= i < held.len() && #[trigger] entry_has_id(held[i], id);
        if i < held.len() - 1 {
            assert(entry_has_id(held.drop_last()[i], id));
        }
    }
    if tracks_id(held.drop_last(), id) {
        let i = choose|i: int| 0 <= i < held.len() - 1 && #[trigger] entry_has_id(held.drop_last()[i], id);
        assert(entry_has_id(held[i], id));
    }
    if entry_has_id(held.last(), id) {
        assert(entry_has_id(held[held.len() - 1], id));
    }
}

proof fn lemma_distinct_held_prefix(held: Seq<Option<TrackedContact>>)
    requires
        held.len() > 0,
        distinct_held_ids(held),
    ensures
        distinct_held_ids(held.drop_last()),
        held.last() matches Some(p) ==> !tracks_id(held.drop_last(), p.contact_id),
{
    let init = held.drop_last();
    assert forall|i: int, j: int|
        0 <= i < init.len() && 0 <= j < init.len() && i != j && #[trigger] init[i] is Some
            && #[trigger] init[j] is Some implies init[i]->Some_0.contact_id != init[j]->Some_0.contact_id by {
        assert(init[i] == held[i] && init[j] == held[j]);
    }
    if let Some(p) = held.last() {
        if tracks_id(init, p.contact_id) {
            let i = choose|i: int| 0 <= i < init.len() && #[trigger] entry_has_id(init[i], p.contact_id);
            assert(init[i] == held[i]);
            assert(held[held.len() - 1] is Some);
        }
    }
}

proof fn lemma_distinct_slots_concat(a: Seq<PtpContact>, b: Seq<PtpContact>)
    requires
        distinct_slot_ids(a),
        distinct_slot_ids(b),
        forall|i: int, j: int|
            0 <= i < a.len() && 0 <= j < b.len() ==> (#[trigger] a[i]).contact_id != (#[trigger] b[j]).contact_id,
    ensures
        distinct_slot_ids(a + b),
{
    let ab = a + b;
    assert forall|i: int, j: int|
        0 <= i < ab.len() && 0 <= j < ab.len() && i != j implies (#[trigger] ab[i]).contact_id
            != (#[trigger] ab[j]).contact_id by {
        if i < a.len() && j < a.len() {
            assert(ab[i] == a[i] && ab[j] == a[j]);
        } else if i >= a.len() && j >= a.len() {
            assert(ab[i] == b[i - a.len()] && ab[j] == b[j - a.len()]);
        } else if i < a.len() {
            assert(ab[i] == a[i] && ab[j] == b[j - a.len()]);
        } else {
            assert(ab[j] == a[j] && ab[i] == b[i - a.len()]);
        }
    }
}

proof fn lemma_still_present_ids(held: Seq<Option<TrackedContact>>, frame: Seq<TouchContact>)
    requires
        distinct_held_ids(held),
    ensures
        distinct_slot_ids(still_present(held, frame).0),
        forall|k: int|
            0 <= k < still_present(held, frame).0.len() ==> tracks_id(
                held,
                (#[trigger] still_present(held, frame).0[k]).contact_id,
            ) && first_with_id(frame, still_present(held, frame).0[k].contact_id) is Some,
    decreases held.len(),
{
    if held.len() > 0 {
        let init = held.drop_last();
        lemma_distinct_held_prefix(held);
        lemma_still_present_ids(init, frame);
        let e = still_present(init, frame).0;
        let e2 = still_present(held, frame).0;
        assert forall|k: int| 0 <= k < e.len() implies tracks_id(held, (#[trigger] e[k]).contact_id) by {
            lemma_tracks_prefix(held, e[k].contact_id);
        }
        if let Some(p) = held.last() {
            lemma_first_with_id_found(frame, p.contact_id);
            if let Some(c) = first_with_id(frame, p.contact_id) {
                lemma_tracks_prefix(held, p.contact_id);
                assert(e2 == e.push(slot_of(c, flags_of(c))));
                assert forall|k: int| 0 <= k < e.len() implies (#[trigger] e[k]).contact_id != p.contact_id by {
                }
                assert forall|k: int| 0 <= k < e2.len() implies tracks_id(held, (#[trigger] e2[k]).contact_id)
                    && first_with_id(frame, e2[k].contact_id) is Some by {
                    if k < e.len() {
                        assert(e2[k] == e[k]);
                    }
                }
                assert(distinct_slot_ids(e2)) by {
                    assert forall|i: int, j: int|
                        0 <= i < e2.len() && 0 <= j < e2.len() && i != j implies (#[trigger] e2[i]).contact_id
                            != (#[trigger] e2[j]).contact_id by {
                        if i < e.len() && j < e.len() {
                            assert(e2[i] == e[i] && e2[j] == e[j]);
                        } else if i < e.len() {
                            assert(e2[i] == e[i]);
                        } else if j < e.len() {
                            assert(e2[j] == e[j]);
                        }
                    }
                }
            }
        }
    }
}

proof fn lemma_departure_ids(held: Seq<Option<TrackedContact>>, frame: Seq<TouchContact>)
    requires
        distinct_held_ids(held),
    ensures
        distinct_slot_ids(departures(held, frame)),
        forall|k: int|
            0 <= k < departures(held, frame).len() ==> tracks_id(
                held,
                (#[trigger] departures(held, frame)[k]).contact_id,
            ) && first_with_id(frame, departures(held, frame)[k].contact_id) is None,
    decreases held.len(),
{
    if held.len() > 0 {
        let init = held.drop_last();
        lemma_distinct_held_prefix(held);
        lemma_departure_ids(init, frame);
        let e = departures(init, frame);
        let e2 = departures(held, frame);
        assert forall|k: int| 0 <= k < e.len() implies tracks_id(held, (#[trigger] e[k]).contact_id) by {
            lemma_tracks_prefix(held, e[k].contact_id);
        }
        if let Some(p) = held.last() {
            if first_with_id(frame, p.contact_id) is None {
                lemma_tracks_prefix(held, p.contact_id);
                assert(e2 == e.push(slot_of(p, FINGER_UP)));
                assert forall|k: int| 0 <= k < e.len() implies (#[trigger] e[k]).contact_id != p.contact_id by {
                }
                assert forall|k: int| 0 <= k < e2.len() implies tracks_id(held, (#[trigger] e2[k]).contact_id)
                    && first_with_id(frame, e2[k].contact_id) is None by {
                    if k < e.len() {
                        assert(e2[k] == e[k]);
                    }
                }
                assert(distinct_slot_ids(e2)) by {
                    assert forall|i: int, j: int|
                        0 <= i < e2.len() && 0 <= j < e2.len() && i != j implies (#[trigger] e2[i]).contact_id
                            != (#[trigger] e2[j]).contact_id by {
                        if i < e.len() && j < e.len() {
                            assert(e2[i] == e[i] && e2[j] == e[j]);
                        } else if i < e.len() {
                            assert(e2[i] == e[i]);
                        } else if j < e.len() {
                            assert(e2[j] == e[j]);
                        }
                    }
                }
            }
        }
    }
}

proof fn lemma_fresh_ids(contacts: Seq<TouchContact>, held: Seq<Option<TrackedContact>>)
    requires
        distinct_frame_ids(contacts),
    ensures
        distinct_slot_ids(fresh_slots(contacts, held)),
        forall|k: int|
            0 <= k < fresh_slots(contacts, held).len() ==> !tracks_id(
                held,
                (#[trigger] fresh_slots(contacts, held)[k]).contact_id,
            ) && frame_has_id(contacts, fresh_slots(contacts, held)[k].contact_id),
    decreases contacts.len(),
{
    if contacts.len() > 0 {
        let init = contacts.drop_last();
        assert(distinct_frame_ids(init)) by {
            assert forall|i: int, j: int|
                0 <= i < init.len() && 0 <= j < init.len() && i != j implies (#[trigger] init[i]).contact_id
                    != (#[trigger] init[j]).contact_id by {
                assert(init[i] == contacts[i] && init[j] == contacts[j]);
            }
        }
        lemma_fresh_ids(init, held);
        let f = fresh_slots(init, held);
        let f2 = fresh_slots(contacts, held);
        let n = contacts.len() - 1;
        assert(contacts[n] == contacts.last());
        assert forall|k: int| 0 <= k < f.len() implies frame_has_id(contacts, (#[trigger] f[k]).contact_id)
            && (#[trigger] f[k]).contact_id != contacts.last().contact_id by {
            let j = choose|j: int| 0 <= j < init.len() && (#[trigger] init[j]).contact_id == f[k].contact_id;
            assert(contacts[j] == init[j]);
        }
        let c = tracked_of(contacts.last());
        if !tracks_id(held, c.contact_id) {
            assert(f2 == f.push(slot_of(c, flags_of(c))));
            assert forall|k: int| 0 <= k < f2.len() implies !tracks_id(held, (#[trigger] f2[k]).contact_id)
                && frame_has_id(contacts, f2[k].contact_id) by {
                if k < f.len() {
                    assert(f2[k] == f[k]);
                }
            }
            assert(distinct_slot_ids(f2)) by {
                assert forall|i: int, j: int|
                    0 <= i < f2.len() && 0 <= j < f2.len() && i != j implies (#[trigger] f2[i]).contact_id
                        != (#[trigger] f2[j]).contact_id by {
                    if i < f.len() && j < f.len() {
                        assert(f2[i] == f[i] && f2[j] == f[j]);
                    } else if i < f.len() {
                        assert(f2[i] == f[i]);
                    } else if j < f.len() {
                        assert(f2[j] == f[j]);
                    }
                }
            }
        }
    }
}

proof fn lemma_tip_slots_ids(slots: Seq<PtpContact>)
    requires
        distinct_slot_ids(slots),
    ensures
        distinct_slot_ids(tip_slots(slots)),
        forall|k: int| 0 <= k < tip_slots(slots).len() ==> slots.contains(#[trigger] tip_slots(slots)[k]),
    decreases slots.len(),
{
    if slots.len() > 0 {
        let init = slots.drop_last();
        assert(distinct_slot_ids(init)) by {
            assert forall|i: int, j: int|
                0 <= i < init.len() && 0 <= j < init.len() && i != j implies (#[trigger] init[i]).contact_id
                    != (#[trigger] init[j]).contact_id by {
                assert(init[i] == slots[i] && init[j] == slots[j]);
            }
        }
        lemma_tip_slots_ids(init);
        let t = tip_slots(init);
        let t2 = tip_slots(slots);
        let last = slots.last();
        assert(slots[slots.len() - 1] == last);
        assert forall|k: int| 0 <= k < t.len() implies slots.contains(#[trigger] t[k]) && t[k].contact_id
            != last.contact_id by {
            let m = choose|m: int| 0 <= m < init.len() && init[m] == t[k];
            assert(slots[m] == init[m]);
        }
        if has_tip(last.flags) {
            assert(t2 == t.push(last));
        } else {
            assert(t2 =~= t);
        }
        assert forall|k: int| 0 <= k < t2.len() implies slots.contains(#[trigger] t2[k]) by {
            if k < t.len() {
                assert(t2[k] == t[k]);
            }
        }
        assert forall|i: int, j: int|
            0 <= i < t2.len() && 0 <= j < t2.len() && i != j implies (#[trigger] t2[i]).contact_id
                != (#[trigger] t2[j]).contact_id by {
            if i < t.len() && j < t.len() {
                assert(t2[i] == t[i] && t2[j] == t[j]);
            } else if i < t.len() {
                assert(t2[i] == t[i]);
            } else if j < t.len() {
                assert(t2[j] == t[j]);
            }
        }
    }
}

proof fn lemma_held_slots_ids(kept: Seq<TrackedContact>)
    ensures
        held_slots(kept).len() == kept.len(),
        forall|i: int| 0 <= i < kept.len() ==> (#[trigger] held_slots(kept)[i]).contact_id == kept[i].contact_id,
    decreases kept.len(),
{
    if kept.len() > 0 {
        let init = kept.drop_last();
        lemma_held_slots_ids(init);
        assert forall|i: int| 0 <= i < kept.len() implies (#[trigger] held_slots(kept)[i]).contact_id
            == kept[i].contact_id by {
            if i < init.len() {
                assert(held_slots(kept)[i] == held_slots(init)[i]);
                assert(kept[i] == init[i]);
            }
        }
    }
}

impl TouchReportEncoder {
    /// While the held contacts carry distinct ids and so do the frame's
    /// contacts, the report's slots carry distinct ids, each the id of a
    /// held contact or of a frame contact, and the contacts held afterwards
    /// carry distinct ids again.
    pub proof fn lemma_report_ids_distinct(&self, frame: TouchFrame)
        requires
            distinct_held_ids(self@),
            distinct_frame_ids(populated(frame)),
        ensures
            distinct_slot_ids(encode_step(self@, frame).0),
            forall|k: int|
                0 <= k < encode_step(self@, frame).0.len() ==> tracks_id(
                    self@,
                    (#[trigger] encode_step(self@, frame).0[k]).contact_id,
                ) || frame_has_id(populated(frame), encode_step(self@, frame).0[k].contact_id),
            distinct_held_ids(padded_tracked(encode_step(self@, frame).1)),
    {
        let held = self@;
        let contacts = populated(frame);
        let (e, kept) = encode_step(held, frame);
        self.lemma_report_priority(frame);
        let present = still_present(held, contacts).0;
        let gone = departures(held, contacts);
        let f = fresh_slots(contacts, held);
        let fresh = f.take(reported_count(held, contacts) - present_entries(held));
        lemma_still_present_ids(held, contacts);
        lemma_departure_ids(held, contacts);
        lemma_fresh_ids(contacts, held);
        assert(fresh.len() <= f.len());
        assert forall|k: int| 0 <= k < fresh.len() implies !tracks_id(held, (#[trigger] fresh[k]).contact_id)
            && frame_has_id(contacts, fresh[k].contact_id) by {
            assert(fresh[k] == f[k]);
        }
        assert(distinct_slot_ids(fresh)) by {
            assert forall|i: int, j: int|
                0 <= i < fresh.len() && 0 <= j < fresh.len() && i != j implies (#[trigger] fresh[i]).contact_id
                    != (#[trigger] fresh[j]).contact_id by {
                assert(fresh[i] == f[i] && fresh[j] == f[j]);
            }
        }
        assert forall|i: int, j: int| 0 <= i < present.len() && 0 <= j < gone.len() implies (#[trigger] present[i]).contact_id
            != (#[trigger] gone[j]).contact_id by {
        }
        lemma_distinct_slots_concat(present, gone);
        let pg = present + gone;
        assert forall|k: int| 0 <= k < pg.len() implies tracks_id(held, (#[trigger] pg[k]).contact_id) by {
            if k < present.len() {
                assert(pg[k] == present[k]);
            } else {
                assert(pg[k] == gone[k - present.len()]);
            }
        }
        assert forall|i: int, j: int| 0 <= i < pg.len() && 0 <= j < fresh.len() implies (#[trigger] pg[i]).contact_id
            != (#[trigger] fresh[j]).contact_id by {
        }
        lemma_distinct_slots_concat(pg, fresh);
        assert(e == pg + fresh);
        assert forall|k: int| 0 <= k < e.len() implies tracks_id(held, (#[trigger] e[k]).contact_id)
            || frame_has_id(contacts, e[k].contact_id) by {
            if k < pg.len() {
                assert(e[k] == pg[k]);
            } else {
                assert(e[k] == fresh[k - pg.len()]);
            }
        }
        self.lemma_held_are_tip_slots(frame);
        lemma_tip_slots_ids(e);
        lemma_held_slots_ids(kept);
        let t = tip_slots(e);
        let padded = padded_tracked(kept);
        assert forall|i: int, j: int|
            0 <= i < padded.len() && 0 <= j < padded.len() && i != j && #[trigger] padded[i] is Some
                && #[trigger] padded[j] is Some implies padded[i]->Some_0.contact_id
                != padded[j]->Some_0.contact_id by {
            assert(held_slots(kept)[i] == t[i] && held_slots(kept)[j] == t[j]);
        }
    }
}

proof fn lemma_fresh_listed(contacts: Seq<TouchContact>, held: Seq<Option<TrackedContact>>, j: int)
    requires
        0 <= j < contacts.len(),
        !tracks_id(held, contacts[j].contact_id),
    ensures
        fresh_slots(contacts, held).contains(
            slot_of(tracked_of(contacts[j]), flags_of(tracked_of(contacts[j]))),
        ),
    decreases contacts.len(),
{
    let init = contacts.drop_last();
    let f = fresh_slots(init, held);
    let f2 = fresh_slots(contacts, held);
    let x = slot_of(tracked_of(contacts[j]), flags_of(tracked_of(contacts[j])));
    if j < contacts.len() - 1 {
        assert(init[j] == contacts[j]);
        lemma_fresh_listed(init, held, j);
        let k = choose|k: int| 0 <= k < f.len() && f[k] == x;
        assert(f2[k] == f[k]);
    } else {
        assert(contacts[j] == contacts.last());
        assert(f2 == f.push(x));
        assert(f2[f.len() as int] == x);
    }
}

proof fn lemma_first_with_id_distinct(contacts: Seq<TouchContact>, j: int)
    requires
        0 <= j < contacts.len(),
        distinct_frame_ids(contacts),
    ensures
        first_with_id(contacts, contacts[j].contact_id) == Some(tracked_of(contacts[j])),
{
    lemma_first_with_id_found(contacts, contacts[j].contact_id);
    let c = first_with_id(contacts, contacts[j].contact_id)->Some_0;
    let m = choose|m: int| 0 <= m < contacts.len() && c == tracked_of(#[trigger] contacts[m]);
    assert(contacts[m].contact_id == contacts[j].contact_id);
}

impl TouchReportEncoder {
    /// When the held contacts and the frame's contacts carry distinct ids
    /// and at most five contacts are concerned, the report carries each of
    /// the frame's contacts with its current state, and a lift (at its last
    /// position) for each held contact missing from the frame: with the
    /// distinct slot ids of `lemma_report_ids_distinct`, each exactly once
    /// and nothing else.
    pub proof fn lemma_each_contact_reported_once(&self, frame: TouchFrame)
        requires
            distinct_held_ids(self@),
            distinct_frame_ids(populated(frame)),
            concerned_count(self@, populated(frame)) <= 5,
        ensures
            encode_step(self@, frame).0.len() == concerned_count(self@, populated(frame)),
            forall|j: int|
                0 <= j < populated(frame).len() ==> encode_step(self@, frame).0.contains(
                    slot_of(
                        tracked_of(#[trigger] populated(frame)[j]),
                        flags_of(tracked_of(populated(frame)[j])),
                    ),
                ),
            forall|i: int|
                0 <= i < self@.len() && #[trigger] self@[i] is Some && !frame_has_id(
                    populated(frame),
                    self@[i]->Some_0.contact_id,
                ) ==> encode_step(self@, frame).0.contains(slot_of(self@[i]->Some_0, FINGER_UP)),
    {
        let held = self@;
        let contacts = populated(frame);
        let e = encode_step(held, frame).0;
        self.lemma_report_priority(frame);
        let present = still_present(held, contacts).0;
        let gone = departures(held, contacts);
        let f = fresh_slots(contacts, held);
        let n = reported_count(held, contacts) - present_entries(held);
        assert(n == f.len());
        assert(f.take(n) =~= f);
        assert(e == present + gone + f);
        assert forall|j: int| 0 <= j < contacts.len() implies e.contains(
            slot_of(tracked_of(#[trigger] contacts[j]), flags_of(tracked_of(contacts[j]))),
        ) by {
            let x = slot_of(tracked_of(contacts[j]), flags_of(tracked_of(contacts[j])));
            let id = contacts[j].contact_id;
            lemma_first_with_id_distinct(contacts, j);
            if tracks_id(held, id) {
                let i = choose|i: int| 0 <= i < held.len() && #[trigger] entry_has_id(held[i], id);
                lemma_still_present_listed(held, contacts, i);
                let k = choose|k: int| 0 <= k < present.len() && present[k] == x;
                assert(e[k] == x);
            } else {
                lemma_fresh_listed(contacts, held, j);
                let k = choose|k: int| 0 <= k < f.len() && f[k] == x;
                assert(e[present.len() + gone.len() + k] == x);
            }
        }
        assert forall|i: int|
            0 <= i < held.len() && #[trigger] held[i] is Some && !frame_has_id(
                contacts,
                held[i]->Some_0.contact_id,
            ) implies e.contains(slot_of(held[i]->Some_0, FINGER_UP)) by {
            let x = slot_of(held[i]->Some_0, FINGER_UP);
            lemma_first_with_id_found(contacts, held[i]->Some_0.contact_id);
            if let Some(c) = first_with_id(contacts, held[i]->Some_0.contact_id) {
                let m = choose|m: int| 0 <= m < contacts.len() && c == tracked_of(#[trigger] contacts[m]);
                assert(frame_has_id(contacts, held[i]->Some_0.contact_id));
            }
            lemma_departure_listed(held, contacts, i);
            let k = choose|k: int| 0 <= k < gone.len() && gone[k] == x;
            assert(e[present.len() + k] == x);
        }
    }
}

/// The ids of the held contacts and of the frame's contacts.
pub open spec fn concerned_ids(held: Seq<Option<TrackedContact>>, contacts: Seq<TouchContact>) -> Set<u32> {
    Set::new(|id: u32| tracks_id(held, id) || frame_has_id(contacts, id))
}

/// A fresh or reset encoder holds no two contacts with one id; with
/// `lemma_report_ids_distinct`, this stays so while every frame's contacts
/// carry distinct ids.
pub proof fn lemma_no_tracking_ids_distinct()
    ensures
        distinct_held_ids(no_tracking()),
{
}

/// With distinct ids among the held contacts and among the frame's
/// contacts, `concerned_count` is the number of distinct ids the two carry
/// together.
pub proof fn lemma_concerned_count_is_id_count(held: Seq<Option<TrackedContact>>, contacts: Seq<TouchContact>)
    requires
        distinct_held_ids(held),
        distinct_frame_ids(contacts),
    ensures
        concerned_ids(held, contacts).finite(),
        concerned_ids(held, contacts).len() == concerned_count(held, contacts),
{
    let present = still_present(held, contacts).0;
    let gone = departures(held, contacts);
    let f = fresh_slots(contacts, held);
    lemma_present_plus_departures(held, contacts);
    lemma_still_present_ids(held, contacts);
    lemma_departure_ids(held, contacts);
    lemma_fresh_ids(contacts, held);
    assert forall|i: int, j: int| 0 <= i < present.len() && 0 <= j < gone.len() implies (#[trigger] present[i]).contact_id
        != (#[trigger] gone[j]).contact_id by {
    }
    lemma_distinct_slots_concat(present, gone);
    let pg = present + gone;
    assert forall|k: int| 0 <= k < pg.len() implies tracks_id(held, (#[trigger] pg[k]).contact_id) by {
        if k < present.len() {
            assert(pg[k] == present[k]);
        } else {
            assert(pg[k] == gone[k - present.len()]);
        }
    }
    assert forall|i: int, j: int| 0 <= i < pg.len() && 0 <= j < f.len() implies (#[trigger] pg[i]).contact_id
        != (#[trigger] f[j]).contact_id by {
    }
    lemma_distinct_slots_concat(pg, f);
    let all = pg + f;
    let ids = all.map_values(|c: PtpContact| c.contact_id);
    assert(ids.no_duplicates()) by {
        assert forall|i: int, j: int| 0 <= i < ids.len() && 0 <= j < ids.len() && i != j implies ids[i] != ids[j] by {
            assert(ids[i] == all[i].contact_id && ids[j] == all[j].contact_id);
        }
    }
    ids.unique_seq_to_set();
    assert forall|id: u32| #[trigger] ids.to_set().contains(id) <==> concerned_ids(held, contacts).contains(id) by {
        if ids.to_set().contains(id) {
            let k = choose|k: int| 0 <= k < ids.len() && ids[k] == id;
            if k < pg.len() {
                assert(all[k] == pg[k]);
            } else {
                assert(all[k] == f[k - pg.len()]);
            }
        }
        if tracks_id(held, id) {
            let i = choose|i: int| 0 <= i < held.len() && #[trigger] entry_has_id(held[i], id);
            lemma_first_with_id_found(contacts, id);
            if let Some(c) = first_with_id(contacts, id) {
                lemma_still_present_listed(held, contacts, i);
                let k = choose|k: int| 0 <= k < present.len() && present[k] == slot_of(c, flags_of(c));
                assert(all[k] == present[k]);
                assert(ids[k] == id);
            } else {
                lemma_departure_listed(held, contacts, i);
                let k = choose|k: int| 0 <= k < gone.len() && gone[k] == slot_of(held[i]->Some_0, FINGER_UP);
                assert(all[present.len() + k] == gone[k]);
                assert(ids[present.len() + k] == id);
            }
        } else if frame_has_id(contacts, id) {
            let j = choose|j: int| 0 <= j < contacts.len() && (#[trigger] contacts[j]).contact_id == id;
            lemma_fresh_listed(contacts, held, j);
            let k = choose|k: int| 0 <= k < f.len() && f[k] == slot_of(
                tracked_of(contacts[j]),
                flags_of(tracked_of(contacts[j])),
            );
            assert(all[pg.len() + k] == f[k]);
            assert(ids[pg.len() + k] == id);
        }
    }
    assert(ids.to_set() =~= concerned_ids(held, contacts));
    vstd::seq_lib::seq_to_set_is_finite(ids);
}

/// The flags byte of a report slot for a contact: confidence in bit 0, tip
/// switch in bit 1.
pub open spec fn contact_flags(confident: bool, touching: bool) -> int {
    (if confident { 1int } else { 0int }) + (if touching { 2int } else { 0int })
}

/// A report slot carries the id and position of the contact it was made
/// from, with the flags it was given; a tracked contact keeps the id,
/// position and state of the frame contact it was taken from.
pub proof fn lemma_slot_carries_contact(t: TrackedContact, flags: u8, c: TouchContact)
    ensures
        slot_of(t, flags).contact_id == t.contact_id,
        slot_of(t, flags).x == t.x,
        slot_of(t, flags).y == t.y,
        slot_of(t, flags).flags == flags,
        flags_of(t) as int == contact_flags(t.confident, t.touching),
        tracked_of(c).contact_id == c.contact_id,
        tracked_of(c).x == c.x,
        tracked_of(c).y == c.y,
        tracked_of(c).confident == c.confident,
        tracked_of(c).touching == c.touching,
{
}

/// Whether the slot reports contact `c`: its id, its own x and y,
/// confidence in bit 0 and tip switch in bit 1.
pub open spec fn carries_contact(slot: PtpContact, c: TouchContact) -> bool {
    &&& slot.contact_id == c.contact_id
    &&& slot.x == c.x
    &&& slot.y == c.y
    &&& slot.flags as int == contact_flags(c.confident, c.touching)
}

/// Whether the slot reports the lift of `d`: its id, the x and y last
/// tracked for it, and confidence without tip switch.
pub open spec fn carries_lift(slot: PtpContact, d: TrackedContact) -> bool {
    &&& slot.contact_id == d.contact_id
    &&& slot.x == d.x
    &&& slot.y == d.y
    &&& slot.flags == 0x01
}

/// Whether some slot reports contact `c`.
pub open spec fn reports_contact(slots: Seq<PtpContact>, c: TouchContact) -> bool {
    exists|k: int| 0 <= k < slots.len() && carries_contact(#[trigger] slots[k], c)
}

/// Whether some slot reports the lift of `d`.
pub open spec fn reports_lift(slots: Seq<PtpContact>, d: TrackedContact) -> bool {
    exists|k: int| 0 <= k < slots.len() && carries_lift(#[trigger] slots[k], d)
}

impl TouchReportEncoder {
    /// Under the premises of `lemma_each_contact_reported_once`, the report
    /// has, for every contact of the frame, a slot with that contact's id,
    /// its own x and y, confidence in bit 0 and tip switch in bit 1; and for
    /// every held contact missing from the frame, a lift slot (confidence
    /// only) with its id and the x and y last tracked for it.
    pub proof fn lemma_reported_positions(&self, frame: TouchFrame)
        requires
            distinct_held_ids(self@),
            distinct_frame_ids(populated(frame)),
            concerned_count(self@, populated(frame)) <= 5,
        ensures
            forall|j: int|
                0 <= j < populated(frame).len() ==> reports_contact(
                    encode_step(self@, frame).0,
                    #[trigger] populated(frame)[j],
                ),
            forall|i: int|
                0 <= i < self@.len() && #[trigger] self@[i] is Some && !frame_has_id(
                    populated(frame),
                    self@[i]->Some_0.contact_id,
                ) ==> reports_lift(encode_step(self@, frame).0, self@[i]->Some_0),
    {
        let held = self@;
        let contacts = populated(frame);
        let e = encode_step(held, frame).0;
        self.lemma_each_contact_reported_once(frame);
        assert forall|j: int| 0 <= j < contacts.len() implies reports_contact(e, #[trigger] contacts[j]) by {
            let c = contacts[j];
            let t = tracked_of(c);
            let x = slot_of(t, flags_of(t));
            assert(e.contains(x));
            let k = choose|k: int| 0 <= k < e.len() && e[k] == x;
            lemma_slot_carries_contact(t, flags_of(t), c);
            assert(carries_contact(e[k], c));
        }
        assert forall|i: int|
            0 <= i < held.len() && #[trigger] held[i] is Some && !frame_has_id(
                contacts,
                held[i]->Some_0.contact_id,
            ) implies reports_lift(e, held[i]->Some_0) by {
            let d = held[i]->Some_0;
            let x = slot_of(d, FINGER_UP);
            assert(e.contains(x));
            let k = choose|k: int| 0 <= k < e.len() && e[k] == x;
            assert(carries_lift(e[k], d));
        }
    }
}

} // verus!