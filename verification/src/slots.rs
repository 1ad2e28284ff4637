//! Host-side slot table and forwarding state.
//!
//! Slots 0-3 track remote BLE devices. A separate `forwarding` flag
//! controls whether input is sent to a remote device or stays local (Mac).
//! The firmware has no concept of "Mac"; this is purely host-side.
use vstd::prelude::*;

use crate::serial::{addr_text, format_addr};
use crate::wire::{FirmwareMsg, PeerSnapshot, MAX_SLOTS};

verus! {

/// Whether two BLE addresses are equal.
pub fn same_addr(a: &[u8; 6], b: &[u8; 6]) -> (same: bool)
    ensures
        same == (*a == *b),
{
    let mut i: usize = 0;
    while i < 6
        invariant
            0 <= i <= 6,
            forall|k: int| 0 <= k < i ==> a[k] == b[k],
        decreases 6 - i,
    {
        if a[i] != b[i] {
            return false;
        }
        i += 1;
    }
    assert(*a =~= *b);
    true
}

/// The first slot holding `addr`.
pub open spec fn first_with_addr(slots: Seq<Option<[u8; 6]>>, addr: [u8; 6]) -> Option<int>
    decreases slots.len(),
{
    if slots.len() == 0 {
        None
    } else {
        match first_with_addr(slots.drop_last(), addr) {
            Some(i) => Some(i),
            None => if slots.last() == Some(addr) {
                Some(slots.len() - 1)
            } else {
                None
            },
        }
    }
}

/// The first empty slot.
pub open spec fn first_empty(slots: Seq<Option<[u8; 6]>>) -> Option<int>
    decreases slots.len(),
{
    if slots.len() == 0 {
        None
    } else {
        match first_empty(slots.drop_last()) {
            Some(i) => Some(i),
            None => if slots.last() is None {
                Some(slots.len() - 1)
            } else {
                None
            },
        }
    }
}

/// Where `addr` goes when it connects: its existing slot, else the first
/// empty slot, else the active slot (evicting its device).
pub open spec fn connect_slot(slots: Seq<Option<[u8; 6]>>, active: int, addr: [u8; 6]) -> int {
    match first_with_addr(slots, addr) {
        Some(i) => i,
        None => match first_empty(slots) {
            Some(i) => i,
            None => active,
        },
    }
}

/// Slots after `addr` connects.
pub open spec fn connect_slots(slots: Seq<Option<[u8; 6]>>, active: int, addr: [u8; 6]) -> Seq<
    Option<[u8; 6]>,
> {
    slots.update(connect_slot(slots, active, addr), Some(addr))
}

/// Slots after `addr` disconnects: its first slot is cleared.
pub open spec fn disconnect_slots(slots: Seq<Option<[u8; 6]>>, addr: [u8; 6]) -> Seq<Option<[u8; 6]>> {
    match first_with_addr(slots, addr) {
        Some(i) => slots.update(i, None),
        None => slots,
    }
}

proof fn lemma_first_with_addr_prefix(slots: Seq<Option<[u8; 6]>>, n: int, addr: [u8; 6])
    requires
        0 <= n <= slots.len(),
        first_with_addr(slots.take(n), addr) is Some,
    ensures
        first_with_addr(slots, addr) == first_with_addr(slots.take(n), addr),
    decreases slots.len() - n,
{
    if n < slots.len() {
        assert(slots.take(n + 1).drop_last() == slots.take(n));
        lemma_first_with_addr_prefix(slots, n + 1, addr);
    } else {
        assert(slots.take(n) == slots);
    }
}

proof fn lemma_first_empty_prefix(slots: Seq<Option<[u8; 6]>>, n: int)
    requires
        0 <= n <= slots.len(),
        first_empty(slots.take(n)) is Some,
    ensures
        first_empty(slots) == first_empty(slots.take(n)),
    decreases slots.len() - n,
{
    if n < slots.len() {
        assert(slots.take(n + 1).drop_last() == slots.take(n));
        lemma_first_empty_prefix(slots, n + 1);
    } else {
        assert(slots.take(n) == slots);
    }
}

/// Facts about where `first_with_addr` and `first_empty` point.
pub proof fn lemma_slot_search(slots: Seq<Option<[u8; 6]>>, addr: [u8; 6])
    ensures
        first_with_addr(slots, addr) matches Some(i) ==> 0 <= i < slots.len() && slots[i] == Some(addr)
            && forall|j: int| 0 <= j < i ==> #[trigger] slots[j] != Some(addr),
        first_with_addr(slots, addr) is None ==> forall|j: int|
            0 <= j < slots.len() ==> #[trigger] slots[j] != Some(addr),
        first_empty(slots) matches Some(i) ==> 0 <= i < slots.len() && slots[i] is None,
    decreases slots.len(),
{
    if slots.len() > 0 {
        let init = slots.drop_last();
        lemma_slot_search(init, addr);
        assert forall|j: int| 0 <= j < slots.len() - 1 implies #[trigger] slots[j] == init[j] by {}
    }
}

/// Index of the first slot holding `addr`.
pub fn find_addr(slots: &[Option<[u8; 6]>; 4], addr: &[u8; 6]) -> (found: Option<usize>)
    ensures
        found matches Some(i) ==> first_with_addr(slots@, *addr) == Some(i as int) && i < MAX_SLOTS,
        found is None ==> first_with_addr(slots@, *addr) is None,
{
    let mut i: usize = 0;
    while i < MAX_SLOTS
        invariant
            0 <= i <= MAX_SLOTS,
            first_with_addr(slots@.take(i as int), *addr) is None,
        decreases MAX_SLOTS - i,
    {
        assert(slots@.take(i + 1).drop_last() == slots@.take(i as int));
        if let Some(held) = &slots[i] {
            if same_addr(held, addr) {
                proof {
                    lemma_first_with_addr_prefix(slots@, i + 1, *addr);
                }
                return Some(i);
            }
        }
        i += 1;
    }
    assert(slots@.take(MAX_SLOTS as int) == slots@);
    None
}

/// Index of the first empty slot.
pub fn find_empty(slots: &[Option<[u8; 6]>; 4]) -> (found: Option<usize>)
    ensures
        found matches Some(i) ==> first_empty(slots@) == Some(i as int) && i < MAX_SLOTS,
        found is None ==> first_empty(slots@) is None,
{
    let mut i: usize = 0;
    while i < MAX_SLOTS
        invariant
            0 <= i <= MAX_SLOTS,
            first_empty(slots@.take(i as int)) is None,
        decreases MAX_SLOTS - i,
    {
        assert(slots@.take(i + 1).drop_last() == slots@.take(i as int));
        if slots[i].is_none() {
            proof {
                lemma_first_empty_prefix(slots@, i + 1);
            }
            return Some(i);
        }
        i += 1;
    }
    assert(slots@.take(MAX_SLOTS as int) == slots@);
    None
}

/// Abstract state of the slot table.
pub struct SlotTableView {
    /// BLE address per slot.
    pub slots: Seq<Option<[u8; 6]>>,
    /// Targeted remote slot (meaningful while forwarding).
    pub active: int,
    /// Whether input goes to the active remote slot rather than staying local.
    pub forwarding: bool,
}

impl SlotTableView {
    /// Four slots and an active index among them.
    pub open spec fn wf(self) -> bool {
        self.slots.len() == MAX_SLOTS && 0 <= self.active < MAX_SLOTS
    }
}

/// Slot table with forwarding state.
pub struct SlotTable {
    slots: [Option<[u8; 6]>; 4],
    active: usize,
    forwarding: bool,
}

impl View for SlotTable {
    type V = SlotTableView;

    closed spec fn view(&self) -> SlotTableView {
        SlotTableView {
            slots: self.slots@,
            active: if self.active < MAX_SLOTS {
                self.active as int
            } else {
                0
            },
            forwarding: self.forwarding,
        }
    }
}

impl SlotTable {
    /// Every slot table has four slots and an active index among them.
    pub proof fn lemma_view_wf(&self)
        ensures
            self@.wf(),
    {
    }

    #[verifier::type_invariant]
    spec fn inv(self) -> bool {
        self.active < MAX_SLOTS
    }

    /// An empty table, staying local, targeting slot 0.
    pub fn new() -> (table: SlotTable)
        ensures
            table@.slots == Seq::new(MAX_SLOTS as nat, |i: int| None::<[u8; 6]>),
            table@.active == 0,
            !table@.forwarding,
            table@.wf(),
    {
        let table = SlotTable { slots: [None, None, None, None], active: 0, forwarding: false };
        assert(table@.slots =~= Seq::new(MAX_SLOTS as nat, |i: int| None::<[u8; 6]>));
        table
    }

    /// Whether input is being forwarded to a remote device.
    pub fn is_forwarding(&self) -> (forwarding: bool)
        ensures
            forwarding == self@.forwarding,
    {
        self.forwarding
    }

    /// Switch to Mac (local). Stops forwarding.
    pub fn switch_to_mac(&mut self)
        ensures
            final(self)@ == (SlotTableView { forwarding: false, ..old(self)@ }),
    {
        proof {
            use_type_invariant(&*self);
        }
        self.forwarding = false;
    }

    /// The link to the remote side is lost: input reverts to the Mac. The
    /// slots and the targeted slot stay as they were; returns the new
    /// forwarding state.
    pub fn revert_to_local(&mut self) -> (forwarding: bool)
        ensures
            !forwarding,
            forwarding == final(self)@.forwarding,
            final(self)@.slots == old(self)@.slots,
            final(self)@.active == old(self)@.active,
    {
        self.switch_to_mac();
        false
    }

    /// Switch to a remote slot and start forwarding; refused (returns false,
    /// nothing changes) when the slot is out of range.
    pub fn switch_to_remote(&mut self, slot: usize) -> (switched: bool)
        ensures
            switched == (slot < MAX_SLOTS),
            switched ==> final(self)@ == (SlotTableView {
                active: slot as int,
                forwarding: true,
                ..old(self)@
            }),
            !switched ==> final(self)@ == old(self)@,
    {
        proof {
            use_type_invariant(&*self);
        }
        if slot < MAX_SLOTS {
            self.active = slot;
            self.forwarding = true;
            true
        } else {
            false
        }
    }

    /// Get the active remote slot index.
    pub fn active(&self) -> (slot: usize)
        ensures
            slot == self@.active,
            slot < MAX_SLOTS,
    {
        proof {
            use_type_invariant(self);
        }
        self.active
    }

    /// Assign an address to the first empty slot, or return its existing
    /// slot; with no empty slot, the active slot is taken over.
    pub fn connect(&mut self, addr: [u8; 6]) -> (slot: usize)
        ensures
            slot as int == connect_slot(old(self)@.slots, old(self)@.active, addr),
            final(self)@ == (SlotTableView {
                slots: connect_slots(old(self)@.slots, old(self)@.active, addr),
                ..old(self)@
            }),
            slot < MAX_SLOTS,
    {
        proof {
            use_type_invariant(&*self);
        }
        if let Some(i) = find_addr(&self.slots, &addr) {
            proof {
                lemma_slot_search(self.slots@, addr);
                assert(self.slots@.update(i as int, Some(addr)) =~= self.slots@);
            }
            return i;
        }
        if let Some(i) = find_empty(&self.slots) {
            self.slots[i] = Some(addr);
            return i;
        }
        let active = self.active;
        self.slots[active] = Some(addr);
        active
    }

    /// Clear the slot of a disconnected address.
    pub fn disconnect(&mut self, addr: [u8; 6])
        ensures
            final(self)@ == (SlotTableView { slots: disconnect_slots(old(self)@.slots, addr), ..old(self)@ }),
    {
        proof {
            use_type_invariant(&*self);
        }
        if let Some(i) = find_addr(&self.slots, &addr) {
            self.slots[i] = None;
        }
    }

    /// Select a remote slot (same as `switch_to_remote`).
    pub fn set_active(&mut self, slot: usize) -> (switched: bool)
        ensures
            switched == (slot < MAX_SLOTS),
            switched ==> final(self)@ == (SlotTableView {
                active: slot as int,
                forwarding: true,
                ..old(self)@
            }),
            !switched ==> final(self)@ == old(self)@,
    {
        self.switch_to_remote(slot)
    }

    /// Address held by a slot (for status display).
    pub fn slot_addr(&self, slot: usize) -> (addr: Option<[u8; 6]>)
        requires
            slot < MAX_SLOTS,
        ensures
            addr == self@.slots[slot as int],
    {
        self.slots[slot]
    }
}

/// Once an address holds a slot, connecting it again returns the same slot
/// and changes nothing.
pub proof fn lemma_connect_idempotent(slots: Seq<Option<[u8; 6]>>, active: int, addr: [u8; 6])
    requires
        slots.len() == MAX_SLOTS,
        0 <= active < MAX_SLOTS,
    ensures
        connect_slot(connect_slots(slots, active, addr), active, addr) == connect_slot(slots, active, addr),
        connect_slots(connect_slots(slots, active, addr), active, addr) == connect_slots(slots, active, addr),
{
    lemma_slot_search(slots, addr);
    let i = connect_slot(slots, active, addr);
    let after = connect_slots(slots, active, addr);
    lemma_slot_search(after, addr);
    assert(after[i] == Some(addr));
    if first_with_addr(slots, addr) is None {
        assert forall|j: int| 0 <= j < i implies #[trigger] after[j] != Some(addr) by {
            assert(after[j] == slots[j]);
        }
    }
    assert(first_with_addr(after, addr) == Some(i));
    assert(after.update(i, Some(addr)) =~= after);
}

/// Connecting a new address and then disconnecting it leaves no slot with
/// that address.
pub proof fn lemma_connect_then_disconnect(slots: Seq<Option<[u8; 6]>>, active: int, addr: [u8; 6])
    requires
        slots.len() == MAX_SLOTS,
        0 <= active < MAX_SLOTS,
        first_with_addr(slots, addr) is None,
    ensures
        first_with_addr(disconnect_slots(connect_slots(slots, active, addr), addr), addr) is None,
{
    lemma_slot_search(slots, addr);
    let i = connect_slot(slots, active, addr);
    let after = connect_slots(slots, active, addr);
    lemma_connect_idempotent(slots, active, addr);
    lemma_slot_search(after, addr);
    let cleared = disconnect_slots(after, addr);
    assert(first_with_addr(after, addr) == Some(i)) by {
        assert forall|j: int| 0 <= j < i implies #[trigger] after[j] != Some(addr) by {
            assert(after[j] == slots[j]);
        }
        assert(after[i] == Some(addr));
    }
    lemma_slot_search(cleared, addr);
    assert forall|j: int| 0 <= j < cleared.len() implies #[trigger] cleared[j] != Some(addr) by {
        if j != i {
            assert(cleared[j] == slots[j]);
        }
    }
}

/// Marker of the target receiving input.
pub open spec fn marker(selected: bool) -> Seq<char> {
    if selected {
        seq!['\u{25B6}']
    } else {
        seq![' ']
    }
}

/// Decimal digit of a value below 10.
pub open spec fn digit(n: int) -> char {
    (('0' as int) + n) as char
}

/// Status line of a remote slot holding `addr`.
pub open spec fn slot_line(v: SlotTableView, i: int, addr: [u8; 6]) -> Seq<char> {
    marker(v.forwarding && i == v.active) + " slot "@ + seq![digit(i)] + ": "@ + addr_text(addr)
        + " (Ctrl+Opt+"@ + seq![digit(i + 2)] + ")"@
}

/// Status lines for slots `0..n`: one per slot that holds a device.
pub open spec fn slot_lines(v: SlotTableView, n: int) -> Seq<Seq<char>>
    decreases n,
{
    if n <= 0 {
        seq![]
    } else {
        let before = slot_lines(v, n - 1);
        match v.slots[n - 1] {
            Some(addr) => before.push(slot_line(v, n - 1, addr)),
            None => before,
        }
    }
}

/// The status shown to the user: the local target first, then every slot
/// that holds a device, the target receiving input marked.
pub open spec fn status_text(v: SlotTableView) -> Seq<Seq<char>> {
    seq![marker(!v.forwarding) + " Mac (Ctrl+Opt+1)"@] + slot_lines(v, MAX_SLOTS as int)
}

fn marker_str(selected: bool) -> (m: &'static str)
    ensures
        m@ == marker(selected),
{
    if selected {
        let m = "\u{25B6}";
        proof {
            reveal_strlit("\u{25B6}");
        }
        m
    } else {
        let m = " ";
        proof {
            reveal_strlit(" ");
        }
        m
    }
}

fn digit_str(n: usize) -> (d: &'static str)
    requires
        n < 6,
    ensures
        d@ == seq![digit(n as int)],
{
    let d = if n == 0 {
        "0"
    } else if n == 1 {
        "1"
    } else if n == 2 {
        "2"
    } else if n == 3 {
        "3"
    } else if n == 4 {
        "4"
    } else {
        "5"
    };
    proof {
        reveal_strlit("0");
        reveal_strlit("1");
        reveal_strlit("2");
        reveal_strlit("3");
        reveal_strlit("4");
        reveal_strlit("5");
        assert(d@ =~= seq![digit(n as int)]);
    }
    d
}

impl SlotTable {
    /// Lines describing the active target and the connected slots, each
    /// slot with its hotkey.
    pub fn status_lines(&self) -> (lines: Vec<String>)
        ensures
            lines@.map_values(|l: String| l@) == status_text(self@),
    {
        proof {
            use_type_invariant(self);
        }
        let mut lines: Vec<String> = Vec::new();
        let mut first = String::new();
        first.append(marker_str(!self.forwarding));
        let mac = " Mac (Ctrl+Opt+1)";
        proof {
            reveal_strlit(" Mac (Ctrl+Opt+1)");
        }
        first.append(mac);
        lines.push(first);
        let mut i: usize = 0;
        while i < MAX_SLOTS
            invariant
                0 <= i <= MAX_SLOTS,
                self@.wf(),
                self.active < MAX_SLOTS,
                lines@.map_values(|l: String| l@) == seq![marker(!self@.forwarding) + " Mac (Ctrl+Opt+1)"@]
                    + slot_lines(self@, i as int),
            decreases MAX_SLOTS - i,
        {
            if let Some(addr) = self.slots[i] {
                let mut line = String::new();
                line.append(marker_str(self.forwarding && i == self.active));
                let slot_word = " slot ";
                let colon = ": ";
                let hotkey = " (Ctrl+Opt+";
                let close = ")";
                proof {
                    reveal_strlit(" slot ");
                    reveal_strlit(": ");
                    reveal_strlit(" (Ctrl+Opt+");
                    reveal_strlit(")");
                }
                line.append(slot_word);
                line.append(digit_str(i));
                line.append(colon);
                let text = format_addr(&addr);
                line.append(text.as_str());
                line.append(hotkey);
                line.append(digit_str(i + 2));
                line.append(close);
                assert(line@ =~= slot_line(self@, i as int, addr));
                let ghost before = lines@;
                lines.push(line);
                assert(lines@.map_values(|l: String| l@) =~= before.map_values(|l: String| l@).push(line@));
            }
            i += 1;
        }
        lines
    }

    /// Mirror a firmware report about peer slots: the firmware's slot
    /// numbers are authoritative.
    pub fn apply_firmware_msg(&mut self, msg: &FirmwareMsg)
        ensures
            final(self)@ == firmware_msg_step(old(self)@, *msg),
    {
        proof {
            use_type_invariant(&*self);
        }
        match msg {
            FirmwareMsg::PeerSnapshot(snapshot) => {
                self.apply_snapshot(snapshot);
            },
            FirmwareMsg::PeerConnected(peer) => {
                if (peer.slot as usize) < MAX_SLOTS {
                    self.slots[peer.slot as usize] = Some(peer.addr);
                }
            },
            FirmwareMsg::PeerDisconnected { slot } => {
                if (*slot as usize) < MAX_SLOTS {
                    self.slots[*slot as usize] = None;
                }
            },
            FirmwareMsg::ActivePeerChanged(active) => match active {
                Some(s) => {
                    self.switch_to_remote(*s as usize);
                },
                None => {
                    self.switch_to_mac();
                },
            },
            _ => {},
        }
    }

    fn apply_snapshot(&mut self, snapshot: &PeerSnapshot)
        ensures
            final(self)@ == firmware_msg_step(old(self)@, FirmwareMsg::PeerSnapshot(*snapshot)),
    {
        proof {
            use_type_invariant(&*self);
        }
        let mut i: usize = 0;
        while i < MAX_SLOTS
            invariant
                0 <= i <= MAX_SLOTS,
                self.active == old(self).active,
                self.forwarding == old(self).forwarding,
                self.active < MAX_SLOTS,
                forall|k: int| 0 <= k < i ==> #[trigger] self.slots@[k] == snapshot_addr(*snapshot, k),
                forall|k: int| i <= k < MAX_SLOTS ==> #[trigger] self.slots@[k] == old(self).slots@[k],
            decreases MAX_SLOTS - i,
        {
            self.slots[i] = match snapshot.peers[i] {
                Some(peer) => Some(peer.addr),
                None => None,
            };
            i += 1;
        }
        match snapshot.active_slot {
            Some(s) => {
                if !self.switch_to_remote(s as usize) {
                    self.switch_to_mac();
                }
            },
            None => {
                self.switch_to_mac();
            },
        }
        assert(self@.slots =~= firmware_msg_step(old(self)@, FirmwareMsg::PeerSnapshot(*snapshot)).slots);
    }
}

/// Address the firmware reports for slot `i` of a snapshot.
pub open spec fn snapshot_addr(snapshot: PeerSnapshot, i: int) -> Option<[u8; 6]> {
    match snapshot.peers@[i] {
        Some(peer) => Some(peer.addr),
        None => None,
    }
}

/// Table after a firmware message: a snapshot replaces every slot and the
/// target; connections and disconnections update their slot; an active-peer
/// change switches to that slot or back to local. Out-of-range slots and
/// other messages change nothing.
pub open spec fn firmware_msg_step(v: SlotTableView, msg: FirmwareMsg) -> SlotTableView {
    match msg {
        FirmwareMsg::PeerSnapshot(snapshot) => {
            let slots = Seq::new(MAX_SLOTS as nat, |i: int| snapshot_addr(snapshot, i));
            match snapshot.active_slot {
                Some(s) => if (s as int) < MAX_SLOTS {
                    SlotTableView { slots, active: s as int, forwarding: true }
                } else {
                    SlotTableView { slots, active: v.active, forwarding: false }
                },
                None => SlotTableView { slots, active: v.active, forwarding: false },
            }
        },
        FirmwareMsg::PeerConnected(peer) => if (peer.slot as int) < MAX_SLOTS {
            SlotTableView { slots: v.slots.update(peer.slot as int, Some(peer.addr)), ..v }
        } else {
            v
        },
        FirmwareMsg::PeerDisconnected { slot } => if (slot as int) < MAX_SLOTS {
            SlotTableView { slots: v.slots.update(slot as int, None), ..v }
        } else {
            v
        },
        FirmwareMsg::ActivePeerChanged(active) => match active {
            Some(s) => if (s as int) < MAX_SLOTS {
                SlotTableView { active: s as int, forwarding: true, ..v }
            } else {
                v
            },
            None => SlotTableView { forwarding: false, ..v },
        },
        _ => v,
    }
}

/// Whether the occupied slots hold pairwise distinct addresses.
pub open spec fn distinct_addrs(slots: Seq<Option<[u8; 6]>>) -> bool {
    forall|i: int, j: int|
        0 <= i < slots.len() && 0 <= j < slots.len() && i != j && #[trigger] slots[i] is Some
            ==> #[trigger] slots[j] != slots[i]
}

/// Connecting and disconnecting keep the occupied slots' addresses
/// distinct; right after connecting, exactly one slot holds the address:
/// the one returned.
pub proof fn lemma_addresses_stay_distinct(slots: Seq<Option<[u8; 6]>>, active: int, addr: [u8; 6], other: [u8; 6])
    requires
        slots.len() == MAX_SLOTS,
        0 <= active < MAX_SLOTS,
        distinct_addrs(slots),
    ensures
        distinct_addrs(connect_slots(slots, active, addr)),
        distinct_addrs(disconnect_slots(slots, other)),
        0 <= connect_slot(slots, active, addr) < MAX_SLOTS,
        forall|j: int|
            0 <= j < MAX_SLOTS ==> (#[trigger] connect_slots(slots, active, addr)[j] == Some(addr) <==> j
                == connect_slot(slots, active, addr)),
{
    lemma_slot_search(slots, addr);
    lemma_slot_search(slots, other);
    let i = connect_slot(slots, active, addr);
    let after = connect_slots(slots, active, addr);
    assert forall|j: int| 0 <= j < MAX_SLOTS implies (#[trigger] after[j] == Some(addr) <==> j == i) by {
        if j != i && after[j] == Some(addr) {
            assert(slots[j] == Some(addr));
            if first_with_addr(slots, addr) is Some {
                assert(slots[i] == Some(addr));
            }
        }
    }
    assert forall|a: int, b: int|
        0 <= a < after.len() && 0 <= b < after.len() && a != b && #[trigger] after[a] is Some implies #[trigger] after[b]
            != after[a] by {
        if a != i && b != i {
            assert(after[a] == slots[a] && after[b] == slots[b]);
        }
    }
    let cleared = disconnect_slots(slots, other);
    assert forall|a: int, b: int|
        0 <= a < cleared.len() && 0 <= b < cleared.len() && a != b && #[trigger] cleared[a] is Some implies #[trigger] cleared[b]
            != cleared[a] by {
        assert(cleared[a] == slots[a]);
        if cleared[b] is Some {
            assert(cleared[b] == slots[b]);
        }
    }
}

/// Connecting a new address while a slot is free, then disconnecting it,
/// gives back the slots as they were; disconnecting an address no slot
/// holds changes nothing.
pub proof fn lemma_connect_disconnect_restores(slots: Seq<Option<[u8; 6]>>, active: int, addr: [u8; 6])
    requires
        slots.len() == MAX_SLOTS,
        0 <= active < MAX_SLOTS,
        first_with_addr(slots, addr) is None,
    ensures
        disconnect_slots(slots, addr) == slots,
        first_empty(slots) is Some ==> disconnect_slots(connect_slots(slots, active, addr), addr) == slots,
{
    lemma_slot_search(slots, addr);
    if first_empty(slots) is Some {
        let i = connect_slot(slots, active, addr);
        let after = connect_slots(slots, active, addr);
        lemma_slot_search(after, addr);
        assert(after[i] == Some(addr));
        assert(first_with_addr(after, addr) == Some(i)) by {
            assert forall|j: int| 0 <= j < i implies #[trigger] after[j] != Some(addr) by {
                assert(after[j] == slots[j]);
            }
        }
        assert(disconnect_slots(after, addr) =~= slots);
    }
}

} // verus!
