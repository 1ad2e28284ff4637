//! Firmware-side semantic host session and active-peer routing.
//!
//! The session decides; the caller performs. Each handler returns the
//! messages to send to the host and the HID reports to send to BLE peers,
//! in the order in which they are to be sent.
use vstd::prelude::*;

use crate::input::KeyboardSnapshot;
use crate::keyboard::KeyboardReport;
use crate::ptp::{encode_step, no_tracking, padded_tracked, report_for, PtpReport, TouchReportEncoder, TrackedContact};
use crate::wire::{
    FirmwareMsg, HelloAck, HostMsg, PeerDescriptor, PeerSnapshot, ProtocolError, MAX_PEERS,
    PROTOCOL_VERSION,
};

verus! {

/// Events reported by the BLE HID layer.
#[derive(Clone, Copy, Debug, PartialEq, Eq)]
pub enum BleEvent {
    /// A peer connected.
    Connected { conn_handle: u16, addr: [u8; 6] },
    /// A peer disconnected.
    Disconnected { conn_handle: u16 },
    /// A peer wrote the keyboard LED output report.
    LedState(u8),
}

/// One occupied peer slot.
#[derive(Clone, Copy, Debug, PartialEq, Eq)]
pub struct PeerSlot {
    /// BLE connection handle of the peer.
    pub conn_handle: u16,
    /// Peer BLE address.
    pub addr: [u8; 6],
}

/// What the caller must do after the session handled a host message.
#[derive(Clone, Copy, Debug, PartialEq, Eq)]
pub enum SessionAction {
    /// Send a message to the host.
    Notify(FirmwareMsg),
    /// Send a keyboard report to a peer.
    SendKeyboard { conn_handle: u16, report: KeyboardReport },
    /// Send a consumer control bitfield to a peer.
    SendConsumer { conn_handle: u16, bits: u16 },
    /// Send a touchpad report to a peer.
    SendTouch { conn_handle: u16, touch_report: PtpReport },
}

/// Abstract state of a session.
pub struct SessionView {
    /// Whether the host completed the handshake.
    pub host_ready: bool,
    /// Peer slots.
    pub peers: Seq<Option<PeerSlot>>,
    /// The slot receiving input.
    pub active_slot: Option<u8>,
    /// Last keyboard state forwarded to the active peer.
    pub keyboard: KeyboardSnapshot,
    /// Last consumer state forwarded to the active peer.
    pub consumer: u16,
    /// Touch encoder state.
    pub touch: Seq<Option<TrackedContact>>,
}

impl SessionView {
    /// Four slots, five touch entries, and an active slot that is occupied.
    pub open spec fn wf(self) -> bool {
        &&& self.peers.len() == MAX_PEERS
        &&& self.touch.len() == 5
        &&& self.active_slot matches Some(s) ==> s < MAX_PEERS && self.peers[s as int] is Some
    }

    /// Connection handle of the active peer.
    pub open spec fn active_conn(self) -> Option<u16> {
        match self.active_slot {
            Some(s) => match self.peers[s as int] {
                Some(p) => Some(p.conn_handle),
                None => None,
            },
            None => None,
        }
    }

    /// The same state with the input state (keyboard, consumer, touch) cleared.
    pub open spec fn input_reset(self) -> SessionView {
        SessionView {
            keyboard: KeyboardSnapshot::released_spec(),
            consumer: 0,
            touch: no_tracking(),
            ..self
        }
    }
}

/// The first empty slot.
pub open spec fn first_free(peers: Seq<Option<PeerSlot>>) -> Option<int>
    decreases peers.len(),
{
    if peers.len() == 0 {
        None
    } else {
        match first_free(peers.drop_last()) {
            Some(i) => Some(i),
            None => if peers.last() is None {
                Some(peers.len() - 1)
            } else {
                None
            },
        }
    }
}

/// Whether a slot holds the peer with this connection handle.
pub open spec fn holds_conn(slot: Option<PeerSlot>, conn_handle: u16) -> bool {
    slot matches Some(p) && p.conn_handle == conn_handle
}

/// The first slot holding the peer with this connection handle.
pub open spec fn slot_with_conn(peers: Seq<Option<PeerSlot>>, conn_handle: u16) -> Option<int>
    decreases peers.len(),
{
    if peers.len() == 0 {
        None
    } else {
        match slot_with_conn(peers.drop_last(), conn_handle) {
            Some(i) => Some(i),
            None => if holds_conn(peers.last(), conn_handle) {
                Some(peers.len() - 1)
            } else {
                None
            },
        }
    }
}

/// Messages sent to the host only once it completed the handshake.
pub open spec fn if_ready(v: SessionView, msgs: Seq<FirmwareMsg>) -> Seq<FirmwareMsg> {
    if v.host_ready {
        msgs
    } else {
        seq![]
    }
}

/// State after a BLE event, and the messages for the host.
pub open spec fn ble_event_step(v: SessionView, event: BleEvent) -> (SessionView, Seq<FirmwareMsg>) {
    match event {
        BleEvent::Connected { conn_handle, addr } => match first_free(v.peers) {
            Some(i) => (
                SessionView { peers: v.peers.update(i, Some(PeerSlot { conn_handle, addr })), ..v },
                if_ready(v, seq![FirmwareMsg::PeerConnected(PeerDescriptor { slot: i as u8, addr })]),
            ),
            None => (v, seq![]),
        },
        BleEvent::Disconnected { conn_handle } => match slot_with_conn(v.peers, conn_handle) {
            Some(i) => {
                let was_active = v.active_slot == Some(i as u8);
                let cleared = SessionView { peers: v.peers.update(i, None), ..v };
                if was_active {
                    (
                        SessionView { active_slot: None, ..cleared }.input_reset(),
                        if_ready(
                            v,
                            seq![
                                FirmwareMsg::PeerDisconnected { slot: i as u8 },
                                FirmwareMsg::ActivePeerChanged(None),
                            ],
                        ),
                    )
                } else {
                    (cleared, if_ready(v, seq![FirmwareMsg::PeerDisconnected { slot: i as u8 }]))
                }
            },
            None => (v, seq![]),
        },
        BleEvent::LedState(bits) => (v, if_ready(v, seq![FirmwareMsg::LedState(bits)])),
    }
}

/// Descriptor of slot `i`, if occupied.
pub open spec fn descriptor_at(peers: Seq<Option<PeerSlot>>, i: int) -> Option<PeerDescriptor> {
    match peers[i] {
        Some(p) => Some(PeerDescriptor { slot: i as u8, addr: p.addr }),
        None => None,
    }
}

/// Snapshot of all slots and the active one.
pub open spec fn snapshot_of(v: SessionView) -> PeerSnapshot {
    PeerSnapshot {
        peers: [
            descriptor_at(v.peers, 0),
            descriptor_at(v.peers, 1),
            descriptor_at(v.peers, 2),
            descriptor_at(v.peers, 3),
        ],
        active_slot: v.active_slot,
    }
}

/// Actions that silence a peer: release every key, clear consumer bits,
/// and send an empty touch report.
pub open spec fn clear_actions(conn_handle: u16, scan_time: u16) -> Seq<SessionAction> {
    seq![
        SessionAction::SendKeyboard { conn_handle, report: KeyboardReport::released_spec() },
        SessionAction::SendConsumer { conn_handle, bits: 0 },
        SessionAction::SendTouch {
            conn_handle,
            touch_report: PtpReport { scan_time, ..PtpReport::default_spec() },
        },
    ]
}

/// Actions that silence the active peer, if any.
pub open spec fn clear_active(v: SessionView, scan_time: u16) -> Seq<SessionAction> {
    match v.active_conn() {
        Some(c) => clear_actions(c, scan_time),
        None => seq![],
    }
}

/// Host notifications, sent only once the host completed the handshake.
pub open spec fn notify_if_ready(v: SessionView, msg: FirmwareMsg) -> Seq<SessionAction> {
    if v.host_ready {
        seq![SessionAction::Notify(msg)]
    } else {
        seq![]
    }
}

/// State and actions after a host request to select a peer slot.
pub open spec fn select_step(v: SessionView, slot: Option<u8>, scan_time: u16) -> (
    SessionView,
    Seq<SessionAction>,
) {
    match slot {
        None => (
            SessionView { active_slot: None, ..v }.input_reset(),
            clear_active(v, scan_time) + notify_if_ready(v, FirmwareMsg::ActivePeerChanged(None)),
        ),
        Some(next) => if next as int >= MAX_PEERS || v.peers[next as int] is None {
            (v, notify_if_ready(v, FirmwareMsg::ProtocolError(ProtocolError::InvalidPeerSlot(next))))
        } else if v.active_slot == Some(next) {
            (v, seq![])
        } else {
            (
                SessionView { active_slot: Some(next), ..v }.input_reset(),
                clear_active(v, scan_time) + notify_if_ready(
                    v,
                    FirmwareMsg::ActivePeerChanged(Some(next)),
                ),
            )
        },
    }
}

/// State and actions after a host message; `scan_time` stamps any touch
/// report sent.
pub open spec fn host_step(v: SessionView, msg: HostMsg, scan_time: u16) -> (
    SessionView,
    Seq<SessionAction>,
) {
    match msg {
        HostMsg::Hello(hello) => if hello.protocol_version != PROTOCOL_VERSION {
            (
                v,
                seq![
                    SessionAction::Notify(
                        FirmwareMsg::ProtocolError(
                            ProtocolError::UnsupportedProtocolVersion {
                                expected: PROTOCOL_VERSION,
                                received: hello.protocol_version,
                            },
                        ),
                    ),
                ],
            )
        } else {
            (
                SessionView { host_ready: true, ..v },
                seq![
                    SessionAction::Notify(
                        FirmwareMsg::HelloAck(
                            HelloAck { protocol_version: PROTOCOL_VERSION, max_peers: MAX_PEERS as u8 },
                        ),
                    ),
                    SessionAction::Notify(FirmwareMsg::PeerSnapshot(snapshot_of(v))),
                ],
            )
        },
        HostMsg::SelectPeer(slot) => select_step(v, slot, scan_time),
        HostMsg::KeyboardState(snapshot) => match v.active_conn() {
            Some(c) => (
                SessionView { keyboard: snapshot, ..v },
                seq![
                    SessionAction::SendKeyboard {
                        conn_handle: c,
                        report: KeyboardReport::of_snapshot(snapshot),
                    },
                ],
            ),
            None => (v, seq![]),
        },
        HostMsg::ConsumerState(bits) => match v.active_conn() {
            Some(c) => (
                SessionView { consumer: bits, ..v },
                seq![SessionAction::SendConsumer { conn_handle: c, bits }],
            ),
            None => (v, seq![]),
        },
        HostMsg::TouchFrame(frame) => match v.active_conn() {
            Some(c) => {
                let (emitted, kept) = encode_step(v.touch, frame);
                (
                    SessionView { touch: padded_tracked(kept), ..v },
                    match report_for(emitted, frame, scan_time) {
                        Some(r) => seq![SessionAction::SendTouch { conn_handle: c, touch_report: r }],
                        None => seq![],
                    },
                )
            },
            None => (v, seq![]),
        },
    }
}

/// Firmware-owned semantic session state.
pub struct Session {
    host_ready: bool,
    peers: [Option<PeerSlot>; 4],
    active_slot: Option<u8>,
    keyboard: KeyboardSnapshot,
    consumer: u16,
    touch: TouchReportEncoder,
}

impl View for Session {
    type V = SessionView;

    closed spec fn view(&self) -> SessionView {
        SessionView {
            host_ready: self.host_ready,
            peers: self.peers@,
            active_slot: self.active_slot,
            keyboard: self.keyboard,
            consumer: self.consumer,
            touch: self.touch@,
        }
    }
}

proof fn lemma_first_free_prefix(peers: Seq<Option<PeerSlot>>, n: int)
    requires
        0 <= n <= peers.len(),
        first_free(peers.take(n)) is Some,
    ensures
        first_free(peers) == first_free(peers.take(n)),
    decreases peers.len() - n,
{
    if n < peers.len() {
        assert(peers.take(n + 1).drop_last() == peers.take(n));
        lemma_first_free_prefix(peers, n + 1);
    } else {
        assert(peers.take(n) == peers);
    }
}

proof fn lemma_first_free_bounds(peers: Seq<Option<PeerSlot>>)
    ensures
        first_free(peers) matches Some(i) ==> 0 <= i < peers.len() && peers[i] is None,
    decreases peers.len(),
{
    if peers.len() > 0 {
        lemma_first_free_bounds(peers.drop_last());
    }
}

proof fn lemma_slot_with_conn_prefix(peers: Seq<Option<PeerSlot>>, n: int, conn_handle: u16)
    requires
        0 <= n <= peers.len(),
        slot_with_conn(peers.take(n), conn_handle) is Some,
    ensures
        slot_with_conn(peers, conn_handle) == slot_with_conn(peers.take(n), conn_handle),
    decreases peers.len() - n,
{
    if n < peers.len() {
        assert(peers.take(n + 1).drop_last() == peers.take(n));
        lemma_slot_with_conn_prefix(peers, n + 1, conn_handle);
    } else {
        assert(peers.take(n) == peers);
    }
}

proof fn lemma_slot_with_conn_bounds(peers: Seq<Option<PeerSlot>>, conn_handle: u16)
    ensures
        slot_with_conn(peers, conn_handle) matches Some(i) ==> 0 <= i < peers.len() && holds_conn(
            peers[i],
            conn_handle,
        ),
    decreases peers.len(),
{
    if peers.len() > 0 {
        lemma_slot_with_conn_bounds(peers.drop_last(), conn_handle);
    }
}

impl Session {
    /// Create a fresh firmware session with no host handshake and no peers.
    pub fn new() -> (s: Session)
        ensures
            s@.wf(),
            !s@.host_ready,
            s@.peers == Seq::new(MAX_PEERS as nat, |i: int| None::<PeerSlot>),
            s@.active_slot is None,
            s@.keyboard == KeyboardSnapshot::released_spec(),
            s@.consumer == 0,
            s@.touch == no_tracking(),
    {
        let s = Session {
            host_ready: false,
            peers: [None, None, None, None],
            active_slot: None,
            keyboard: KeyboardSnapshot::released(),
            consumer: 0,
            touch: TouchReportEncoder::new(),
        };
        assert(s@.peers =~= Seq::new(MAX_PEERS as nat, |i: int| None::<PeerSlot>));
        s
    }

    /// Handle one BLE event from the HID layer; returns the messages to send
    /// to the host, in order.
    pub fn handle_ble_event(&mut self, event: BleEvent) -> (msgs: Vec<FirmwareMsg>)
        requires
            old(self)@.wf(),
        ensures
            final(self)@ == ble_event_step(old(self)@, event).0,
            msgs@ == ble_event_step(old(self)@, event).1,
            final(self)@.wf(),
    {
        let mut msgs: Vec<FirmwareMsg> = Vec::new();
        match event {
            BleEvent::Connected { conn_handle, addr } => {
                if let Some(slot) = self.first_free_slot() {
                    self.peers[slot] = Some(PeerSlot { conn_handle, addr });
                    if self.host_ready {
                        msgs.push(FirmwareMsg::PeerConnected(PeerDescriptor { slot: slot as u8, addr }));
                    }
                }
            },
            BleEvent::Disconnected { conn_handle } => {
                if let Some(slot) = self.slot_for_conn_handle(conn_handle) {
                    let was_active = match self.active_slot {
                        Some(a) => a as usize == slot,
                        None => false,
                    };
                    self.peers[slot] = None;
                    if was_active {
                        self.active_slot = None;
                        self.reset_input_state();
                    }
                    if self.host_ready {
                        msgs.push(FirmwareMsg::PeerDisconnected { slot: slot as u8 });
                        if was_active {
                            msgs.push(FirmwareMsg::ActivePeerChanged(None));
                        }
                    }
                }
            },
            BleEvent::LedState(bits) => {
                if self.host_ready {
                    msgs.push(FirmwareMsg::LedState(bits));
                }
            },
        }
        proof {
            assert(msgs@ =~= ble_event_step(old(self)@, event).1);
            assert(self@.peers =~= ble_event_step(old(self)@, event).0.peers);
        }
        msgs
    }

    /// Handle one decoded host message; returns the host messages and peer
    /// reports to send, in order. `scan_time` stamps any touch report sent.
    pub fn handle_host_msg(&mut self, msg: HostMsg, scan_time: u16) -> (actions: Vec<SessionAction>)
        requires
            old(self)@.wf(),
        ensures
            final(self)@ == host_step(old(self)@, msg, scan_time).0,
            actions@ == host_step(old(self)@, msg, scan_time).1,
            final(self)@.wf(),
    {
        let mut actions: Vec<SessionAction> = Vec::new();
        match msg {
            HostMsg::Hello(hello) => {
                if hello.protocol_version != PROTOCOL_VERSION {
                    actions.push(
                        SessionAction::Notify(
                            FirmwareMsg::ProtocolError(
                                ProtocolError::UnsupportedProtocolVersion {
                                    expected: PROTOCOL_VERSION,
                                    received: hello.protocol_version,
                                },
                            ),
                        ),
                    );
                } else {
                    self.host_ready = true;
                    actions.push(
                        SessionAction::Notify(
                            FirmwareMsg::HelloAck(
                                HelloAck { protocol_version: PROTOCOL_VERSION, max_peers: 4 },
                            ),
                        ),
                    );
                    let snapshot = self.snapshot();
                    actions.push(SessionAction::Notify(FirmwareMsg::PeerSnapshot(snapshot)));
                }
            },
            HostMsg::SelectPeer(slot) => {
                self.select_peer(&mut actions, slot, scan_time);
            },
            HostMsg::KeyboardState(snapshot) => {
                if let Some(conn_handle) = self.active_conn_handle() {
                    self.keyboard = snapshot;
                    actions.push(
                        SessionAction::SendKeyboard { conn_handle, report: KeyboardReport::from(snapshot) },
                    );
                }
            },
            HostMsg::ConsumerState(bits) => {
                if let Some(conn_handle) = self.active_conn_handle() {
                    self.consumer = bits;
                    actions.push(SessionAction::SendConsumer { conn_handle, bits });
                }
            },
            HostMsg::TouchFrame(frame) => {
                if let Some(conn_handle) = self.active_conn_handle() {
                    if let Some(report) = self.touch.encode(&frame, scan_time) {
                        actions.push(SessionAction::SendTouch { conn_handle, touch_report: report });
                    }
                }
            },
        }
        proof {
            assert(actions@ =~= host_step(old(self)@, msg, scan_time).1);
        }
        actions
    }

    /// Handle a host request to make `slot` the active peer (`None`: no
    /// peer); appends the host messages and peer reports to send.
    pub fn select_peer(&mut self, actions: &mut Vec<SessionAction>, slot: Option<u8>, scan_time: u16)
        requires
            old(self)@.wf(),
        ensures
            final(self)@ == select_step(old(self)@, slot, scan_time).0,
            final(actions)@ == old(actions)@ + select_step(old(self)@, slot, scan_time).1,
            final(self)@.wf(),
    {
        let ghost start = actions@;
        match slot {
            None => {
                if let Some(conn_handle) = self.active_conn_handle() {
                    self.clear_outputs_for(actions, conn_handle, scan_time);
                }
                self.active_slot = None;
                self.reset_input_state();
                if self.host_ready {
                    actions.push(SessionAction::Notify(FirmwareMsg::ActivePeerChanged(None)));
                }
            },
            Some(next_slot) => {
                let next_idx = next_slot as usize;
                if next_idx >= MAX_PEERS || self.peers[next_idx].is_none() {
                    if self.host_ready {
                        actions.push(
                            SessionAction::Notify(
                                FirmwareMsg::ProtocolError(ProtocolError::InvalidPeerSlot(next_slot)),
                            ),
                        );
                    }
                    return;
                }
                let same = match self.active_slot {
                    Some(a) => a == next_slot,
                    None => false,
                };
                if same {
                    return;
                }
                if let Some(conn_handle) = self.active_conn_handle() {
                    self.clear_outputs_for(actions, conn_handle, scan_time);
                }
                self.active_slot = Some(next_slot);
                self.reset_input_state();
                if self.host_ready {
                    actions.push(SessionAction::Notify(FirmwareMsg::ActivePeerChanged(Some(next_slot))));
                }
            },
        }
        proof {
            assert(actions@ =~= start + select_step(old(self)@, slot, scan_time).1);
        }
    }

    fn clear_outputs_for(&mut self, actions: &mut Vec<SessionAction>, conn_handle: u16, scan_time: u16)
        requires
            old(self)@.wf(),
        ensures
            final(self)@ == (SessionView { touch: no_tracking(), ..old(self)@ }),
            final(actions)@ == old(actions)@ + clear_actions(conn_handle, scan_time),
    {
        actions.push(SessionAction::SendKeyboard { conn_handle, report: KeyboardReport::default() });
        actions.push(SessionAction::SendConsumer { conn_handle, bits: 0 });
        self.touch.reset();
        let mut report = PtpReport::default();
        report.scan_time = scan_time;
        actions.push(SessionAction::SendTouch { conn_handle, touch_report: report });
        assert(final(actions)@ =~= old(actions)@ + clear_actions(conn_handle, scan_time));
    }

    fn reset_input_state(&mut self)
        ensures
            final(self)@ == old(self)@.input_reset(),
    {
        self.keyboard = KeyboardSnapshot::released();
        self.consumer = 0;
        self.touch.reset();
    }

    fn snapshot(&self) -> (snapshot: PeerSnapshot)
        requires
            self@.wf(),
        ensures
            snapshot == snapshot_of(self@),
    {
        let peers = [self.descriptor(0), self.descriptor(1), self.descriptor(2), self.descriptor(3)];
        let snapshot = PeerSnapshot { peers, active_slot: self.active_slot };
        assert(snapshot.peers =~= snapshot_of(self@).peers);
        snapshot
    }

    fn descriptor(&self, slot: usize) -> (d: Option<PeerDescriptor>)
        requires
            slot < MAX_PEERS,
        ensures
            d == descriptor_at(self@.peers, slot as int),
    {
        match self.peers[slot] {
            Some(peer) => Some(PeerDescriptor { slot: slot as u8, addr: peer.addr }),
            None => None,
        }
    }

    fn first_free_slot(&self) -> (slot: Option<usize>)
        ensures
            slot matches Some(i) ==> first_free(self@.peers) == Some(i as int) && i < MAX_PEERS,
            slot is None ==> first_free(self@.peers) is None,
    {
        let mut i: usize = 0;
        while i < MAX_PEERS
            invariant
                0 <= i <= MAX_PEERS,
                self@.peers == self.peers@,
                first_free(self.peers@.take(i as int)) is None,
            decreases MAX_PEERS - i,
        {
            assert(self.peers@.take(i + 1).drop_last() == self.peers@.take(i as int));
            if self.peers[i].is_none() {
                proof {
                    lemma_first_free_prefix(self.peers@, i + 1);
                }
                return Some(i);
            }
            i += 1;
        }
        assert(self.peers@.take(MAX_PEERS as int) == self.peers@);
        None
    }

    fn slot_for_conn_handle(&self, conn_handle: u16) -> (slot: Option<usize>)
        ensures
            slot matches Some(i) ==> slot_with_conn(self@.peers, conn_handle) == Some(i as int) && i
                < MAX_PEERS,
            slot is None ==> slot_with_conn(self@.peers, conn_handle) is None,
    {
        let mut i: usize = 0;
        while i < MAX_PEERS
            invariant
                0 <= i <= MAX_PEERS,
                self@.peers == self.peers@,
                slot_with_conn(self.peers@.take(i as int), conn_handle) is None,
            decreases MAX_PEERS - i,
        {
            assert(self.peers@.take(i + 1).drop_last() == self.peers@.take(i as int));
            if let Some(peer) = self.peers[i] {
                if peer.conn_handle == conn_handle {
                    proof {
                        lemma_slot_with_conn_prefix(self.peers@, i + 1, conn_handle);
                    }
                    return Some(i);
                }
            }
            i += 1;
        }
        assert(self.peers@.take(MAX_PEERS as int) == self.peers@);
        None
    }

    fn active_conn_handle(&self) -> (conn_handle: Option<u16>)
        requires
            self@.wf(),
        ensures
            conn_handle == self@.active_conn(),
    {
        match self.active_slot {
            Some(slot) => match self.peers[slot as usize] {
                Some(peer) => Some(peer.conn_handle),
                None => None,
            },
            None => None,
        }
    }
}

/// Whether an action sends a report to a BLE peer, and to which one.
pub open spec fn target_of(action: SessionAction) -> Option<u16> {
    match action {
        SessionAction::Notify(_) => None,
        SessionAction::SendKeyboard { conn_handle, .. } => Some(conn_handle),
        SessionAction::SendConsumer { conn_handle, .. } => Some(conn_handle),
        SessionAction::SendTouch { conn_handle, .. } => Some(conn_handle),
    }
}

/// Before the host completes the handshake the firmware sends it nothing,
/// except the answer to a handshake request.
pub proof fn lemma_silent_before_handshake(v: SessionView, event: BleEvent, msg: HostMsg, scan_time: u16)
    requires
        !v.host_ready,
        !(msg is Hello),
    ensures
        ble_event_step(v, event).1.len() == 0,
        forall|k: int|
            0 <= k < host_step(v, msg, scan_time).1.len() ==> !(#[trigger] host_step(
                v,
                msg,
                scan_time,
            ).1[k] is Notify),
{
    let acts = host_step(v, msg, scan_time).1;
    assert forall|k: int| 0 <= k < acts.len() implies !(#[trigger] acts[k] is Notify) by {
        if let HostMsg::SelectPeer(slot) = msg {
            let clear = clear_active(v, scan_time);
            if let Some(next) = slot {
                if !(next as int >= MAX_PEERS || v.peers[next as int] is None) && v.active_slot != Some(next) {
                    assert(acts == clear);
                }
            } else {
                assert(acts == clear);
            }
        }
    }
}

/// Input reports only ever go to the peer that was active when the host
/// message arrived.
pub proof fn lemma_reports_reach_active_peer_only(v: SessionView, msg: HostMsg, scan_time: u16)
    requires
        v.wf(),
    ensures
        forall|k: int|
            0 <= k < host_step(v, msg, scan_time).1.len() ==> (#[trigger] target_of(
                host_step(v, msg, scan_time).1[k],
            ) is Some ==> target_of(host_step(v, msg, scan_time).1[k]) == v.active_conn()),
{
    let acts = host_step(v, msg, scan_time).1;
    assert forall|k: int| 0 <= k < acts.len() && #[trigger] target_of(acts[k]) is Some implies target_of(
        acts[k],
    ) == v.active_conn() by {
        if let HostMsg::SelectPeer(slot) = msg {
            let clear = clear_active(v, scan_time);
            let note = match slot {
                None => notify_if_ready(v, FirmwareMsg::ActivePeerChanged(None)),
                Some(next) => notify_if_ready(v, FirmwareMsg::ActivePeerChanged(Some(next))),
            };
            if k < clear.len() && acts == clear + note {
                assert(acts[k] == clear[k]);
            }
        }
    }
}

/// Selecting the peer that is already active changes nothing and sends
/// nothing.
pub proof fn lemma_reselect_is_noop(v: SessionView, slot: u8, scan_time: u16)
    requires
        v.wf(),
        v.active_slot == Some(slot),
    ensures
        select_step(v, Some(slot), scan_time).0 == v,
        select_step(v, Some(slot), scan_time).1.len() == 0,
        host_step(v, HostMsg::SelectPeer(Some(slot)), scan_time).0 == v,
        host_step(v, HostMsg::SelectPeer(Some(slot)), scan_time).1.len() == 0,
{
}

/// When the active peer disconnects, no peer stays active and the input
/// state (keys, consumer bits, touch tracking) is cleared.
pub proof fn lemma_active_disconnect_resets(v: SessionView, conn_handle: u16)
    requires
        v.wf(),
        v.active_conn() == Some(conn_handle),
        slot_with_conn(v.peers, conn_handle) == Some(v.active_slot->Some_0 as int),
    ensures
        ble_event_step(v, BleEvent::Disconnected { conn_handle }).0.active_slot is None,
        ble_event_step(v, BleEvent::Disconnected { conn_handle }).0.keyboard
            == KeyboardSnapshot::released_spec(),
        ble_event_step(v, BleEvent::Disconnected { conn_handle }).0.consumer == 0,
        ble_event_step(v, BleEvent::Disconnected { conn_handle }).0.touch == no_tracking(),
        ble_event_step(v, BleEvent::Disconnected { conn_handle }).0.peers[v.active_slot->Some_0 as int]
            is None,
{
    let s = v.active_slot->Some_0;
    assert((s as int) as u8 == s);
}

/// Switching from an active peer to another occupied slot first releases
/// every key, consumer bit and touch on the previous peer.
pub proof fn lemma_switch_silences_previous_peer(v: SessionView, next: u8, scan_time: u16)
    requires
        v.wf(),
        v.active_conn() is Some,
        (next as int) < MAX_PEERS,
        v.peers[next as int] is Some,
        v.active_slot != Some(next),
    ensures
        host_step(v, HostMsg::SelectPeer(Some(next)), scan_time).1.take(3) == clear_actions(
            v.active_conn()->Some_0,
            scan_time,
        ),
        host_step(v, HostMsg::SelectPeer(Some(next)), scan_time).0.active_slot == Some(next),
{
    let acts = host_step(v, HostMsg::SelectPeer(Some(next)), scan_time).1;
    assert(acts.take(3) =~= clear_actions(v.active_conn()->Some_0, scan_time));
}

/// With an active peer, every consumer state from the host (including 0,
/// all keys released) is sent as is, once, to that peer's connection, and
/// becomes the session's consumer state; without one, nothing is sent and
/// nothing changes.
pub proof fn lemma_consumer_state_forwarded(v: SessionView, bits: u16, scan_time: u16)
    requires
        v.wf(),
    ensures
        ({
            let (w, acts) = host_step(v, HostMsg::ConsumerState(bits), scan_time);
            match v.active_slot {
                Some(s) => {
                    let c = v.peers[s as int]->Some_0.conn_handle;
                    &&& acts == seq![SessionAction::SendConsumer { conn_handle: c, bits }]
                    &&& w.consumer == bits
                    &&& w.active_slot == v.active_slot
                    &&& w.peers == v.peers
                    &&& w.keyboard == v.keyboard
                    &&& w.touch == v.touch
                },
                None => acts.len() == 0 && w == v,
            }
        }),
{
}

/// With an active peer, every keyboard state from the host is sent once to
/// that peer's connection as a report with the same modifiers and keys;
/// without one, nothing is sent and nothing changes.
pub proof fn lemma_keyboard_state_forwarded(v: SessionView, snapshot: KeyboardSnapshot, scan_time: u16)
    requires
        v.wf(),
    ensures
        ({
            let (w, acts) = host_step(v, HostMsg::KeyboardState(snapshot), scan_time);
            match v.active_slot {
                Some(s) => {
                    let c = v.peers[s as int]->Some_0.conn_handle;
                    &&& acts.len() == 1
                    &&& acts[0] matches SessionAction::SendKeyboard { conn_handle, report }
                    &&& conn_handle == c
                    &&& report.modifiers == snapshot.modifiers
                    &&& report.keycodes == snapshot.keys
                    &&& report.reserved == 0
                    &&& w.keyboard == snapshot
                    &&& w.active_slot == v.active_slot
                },
                None => acts.len() == 0 && w == v,
            }
        }),
{
}

proof fn lemma_slot_with_conn_unique(peers: Seq<Option<PeerSlot>>, conn_handle: u16, i: int)
    requires
        0 <= i < peers.len(),
        holds_conn(peers[i], conn_handle),
        forall|j: int| 0 <= j < peers.len() && j != i ==> !holds_conn(#[trigger] peers[j], conn_handle),
    ensures
        slot_with_conn(peers, conn_handle) == Some(i),
    decreases peers.len(),
{
    let init = peers.drop_last();
    if i < peers.len() - 1 {
        assert forall|j: int| 0 <= j < init.len() && j != i implies !holds_conn(#[trigger] init[j], conn_handle) by {
            assert(init[j] == peers[j]);
        }
        assert(init[i] == peers[i]);
        lemma_slot_with_conn_unique(init, conn_handle, i);
    } else {
        lemma_slot_with_conn_none(init, conn_handle, peers);
        assert(peers.last() == peers[i]);
    }
}

proof fn lemma_slot_with_conn_none(init: Seq<Option<PeerSlot>>, conn_handle: u16, peers: Seq<Option<PeerSlot>>)
    requires
        init.len() < peers.len(),
        forall|j: int| 0 <= j < init.len() ==> init[j] == peers[j],
        forall|j: int| 0 <= j < init.len() ==> !holds_conn(#[trigger] peers[j], conn_handle),
    ensures
        slot_with_conn(init, conn_handle) is None,
    decreases init.len(),
{
    if init.len() > 0 {
        let shorter = init.drop_last();
        lemma_slot_with_conn_none(shorter, conn_handle, peers);
        assert(init.last() == peers[init.len() - 1]);
    }
}

/// A peer that is not the active one disconnecting frees its slot and is
/// reported to a ready host as that slot's disconnect only; the active
/// slot and the keyboard, consumer and touch state stay as they were.
pub proof fn lemma_inactive_disconnect_keeps_routing(v: SessionView, slot: int, conn_handle: u16)
    requires
        v.wf(),
        0 <= slot < MAX_PEERS,
        v.peers[slot] matches Some(p) && p.conn_handle == conn_handle,
        forall|j: int| 0 <= j < MAX_PEERS && j != slot ==> !holds_conn(#[trigger] v.peers[j], conn_handle),
        v.active_slot != Some(slot as u8),
    ensures
        ({
            let (w, msgs) = ble_event_step(v, BleEvent::Disconnected { conn_handle });
            &&& w.active_slot == v.active_slot
            &&& w.keyboard == v.keyboard
            &&& w.consumer == v.consumer
            &&& w.touch == v.touch
            &&& w.host_ready == v.host_ready
            &&& w.peers == v.peers.update(slot, None)
            &&& msgs == if v.host_ready {
                seq![FirmwareMsg::PeerDisconnected { slot: slot as u8 }]
            } else {
                seq![]
            }
        }),
{
    lemma_slot_with_conn_unique(v.peers, conn_handle, slot);
}

} // verus!
