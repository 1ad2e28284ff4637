//! Slot bookkeeping of the interactive debug tool.
use vstd::prelude::*;

use crate::slots::{connect_slot, connect_slots, disconnect_slots, find_addr, find_empty, lemma_slot_search};
use crate::serial::{addr_text, format_addr};
use crate::wire::MAX_SLOTS;

verus! {

/// Host-side slot table of the debug tool: maps slots to BLE addresses.
pub struct SlotTable {
    /// BLE address per slot.
    pub slots: [Option<[u8; 6]>; 4],
    /// Slot that receives a new device when every slot is taken.
    pub active: usize,
}

impl View for SlotTable {
    type V = Seq<Option<[u8; 6]>>;

    open spec fn view(&self) -> Seq<Option<[u8; 6]>> {
        self.slots@
    }
}

impl SlotTable {
    /// An empty table with slot 0 active.
    pub fn new() -> (table: SlotTable)
        ensures
            table@ == Seq::new(MAX_SLOTS as nat, |i: int| None::<[u8; 6]>),
            table.active == 0,
    {
        let table = SlotTable { slots: [None, None, None, None], active: 0 };
        assert(table@ =~= Seq::new(MAX_SLOTS as nat, |i: int| None::<[u8; 6]>));
        table
    }

    /// Put an address in its existing slot, else in the first empty slot,
    /// else in the active slot; returns the slot.
    pub fn assign(&mut self, addr: [u8; 6]) -> (slot: usize)
        requires
            old(self).active < MAX_SLOTS,
        ensures
            slot as int == connect_slot(old(self)@, old(self).active as int, addr),
            final(self)@ == connect_slots(old(self)@, old(self).active as int, addr),
            final(self).active == old(self).active,
            slot < MAX_SLOTS,
    {
        if let Some(i) = find_addr(&self.slots, &addr) {
            proof {
                lemma_slot_search(self.slots@, addr);
                assert(self.slots@.update(i as int, Some(addr)) =~= self.slots@);
            }
            return i;
        }
        if let Some(i) = find_empty(&self.slots) {
            self.slots[i] = Some(addr);
            return i;
        }
        let active = self.active;
        self.slots[active] = Some(addr);
        active
    }

    /// Clear the slot of a disconnected address.
    pub fn disconnect(&mut self, addr: [u8; 6])
        ensures
            final(self)@ == disconnect_slots(old(self)@, addr),
            final(self).active == old(self).active,
    {
        if let Some(i) = find_addr(&self.slots, &addr) {
            self.slots[i] = None;
        }
    }

    /// Address held by a slot (for listing).
    pub fn slot_addr(&self, slot: usize) -> (addr: Option<[u8; 6]>)
        requires
            slot < MAX_SLOTS,
        ensures
            addr == self@[slot as int],
    {
        self.slots[slot]
    }
}

/// The letter and the HID usage of the test key the debug tool types for a
/// scan time: `a` + (low byte of the scan time mod 26), usage `0x04` + the
/// same offset.
pub open spec fn test_key(scan_time: u16) -> (u8, u8) {
    let offset = ((scan_time % 256) % 26) as u8;
    ((0x61 + offset) as u8, (0x04 + offset) as u8)
}

/// Pick the test key for a scan time: (ASCII letter, HID usage).
pub fn key_for_scan_time(scan_time: u16) -> (key: (u8, u8))
    ensures
        key == test_key(scan_time),
{
    let offset = ((scan_time % 256) as u8) % 26;
    let letter: u8 = 0x61 + offset;
    let keycode: u8 = 0x04 + (letter - 0x61);
    (letter, keycode)
}

/// Listing line of slot `i`: a `* ` marker on the active slot, then the
/// address or `(empty)`.
pub open spec fn listing_line(slot: Option<[u8; 6]>, i: int, active: int) -> Seq<char> {
    (if i == active {
        "* "@
    } else {
        "  "@
    }) + "slot "@ + seq![(('0' as int) + i) as char] + ": "@ + match slot {
        Some(addr) => addr_text(addr),
        None => "(empty)"@,
    }
}

impl SlotTable {
    /// One listing line per slot.
    pub fn listing_lines(&self) -> (lines: Vec<String>)
        ensures
            lines@.len() == MAX_SLOTS,
            forall|i: int|
                0 <= i < MAX_SLOTS ==> #[trigger] lines@[i]@ == listing_line(
                    self.slots@[i],
                    i,
                    self.active as int,
                ),
    {
        let mut lines: Vec<String> = Vec::new();
        let mut i: usize = 0;
        while i < MAX_SLOTS
            invariant
                0 <= i <= MAX_SLOTS,
                lines@.len() == i,
                forall|k: int|
                    0 <= k < i ==> #[trigger] lines@[k]@ == listing_line(self.slots@[k], k, self.active as int),
            decreases MAX_SLOTS - i,
        {
            let mut line = String::new();
            let active_mark = "* ";
            let idle_mark = "  ";
            let slot_word = "slot ";
            let colon = ": ";
            let empty = "(empty)";
            proof {
                reveal_strlit("* ");
                reveal_strlit("  ");
                reveal_strlit("slot ");
                reveal_strlit(": ");
                reveal_strlit("(empty)");
                reveal_strlit("0");
                reveal_strlit("1");
                reveal_strlit("2");
                reveal_strlit("3");
            }
            if i == self.active {
                line.append(active_mark);
            } else {
                line.append(idle_mark);
            }
            line.append(slot_word);
            let d = if i == 0 {
                "0"
            } else if i == 1 {
                "1"
            } else if i == 2 {
                "2"
            } else {
                "3"
            };
            assert(d@ =~= seq![(('0' as int) + i) as char]);
            line.append(d);
            line.append(colon);
            match self.slots[i] {
                Some(addr) => {
                    let text = format_addr(&addr);
                    line.append(text.as_str());
                },
                None => {
                    line.append(empty);
                },
            }
            assert(line@ =~= listing_line(self.slots@[i as int], i as int, self.active as int));
            lines.push(line);
            i += 1;
        }
        lines
    }
}

} // verus!
