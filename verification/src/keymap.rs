//! Mapping of macOS virtual keycodes to USB HID keycodes and consumer bits.
use vstd::prelude::*;

use crate::input::{CONSUMER_MUTE, CONSUMER_VOLUME_DOWN, CONSUMER_VOLUME_UP};

verus! {

/// Number of macOS virtual keycodes covered by the mapping table.
pub const MAC_KEYCODE_COUNT: usize = 128;

/// macOS virtual keycode (index) to USB HID keycode (value); 0 = unmapped.
pub const MAC_TO_HID: [u8; 128] = [
    0x04, 0x16, 0x07, 0x09, 0x0B, 0x0A, 0x1D, 0x1B,
    0x06, 0x19, 0x64, 0x05, 0x14, 0x1A, 0x08, 0x15,
    0x1C, 0x17, 0x1E, 0x1F, 0x20, 0x21, 0x23, 0x22,
    0x2E, 0x26, 0x24, 0x2D, 0x25, 0x27, 0x30, 0x12,
    0x18, 0x2F, 0x0C, 0x13, 0x28, 0x0F, 0x0D, 0x34,
    0x0E, 0x33, 0x31, 0x36, 0x38, 0x11, 0x10, 0x37,
    0x2B, 0x2C, 0x35, 0x2A, 0x00, 0x29, 0xE7, 0xE3,
    0xE1, 0x39, 0xE2, 0xE0, 0xE5, 0xE6, 0xE4, 0x00,
    0x6C, 0x63, 0x00, 0x55, 0x00, 0x57, 0x00, 0x53,
    0x80, 0x81, 0x7F, 0x54, 0x58, 0x00, 0x56, 0x6D,
    0x6E, 0x67, 0x62, 0x59, 0x5A, 0x5B, 0x5C, 0x5D,
    0x5E, 0x5F, 0x6F, 0x60, 0x61, 0x89, 0x87, 0x85,
    0x3E, 0x3F, 0x40, 0x3C, 0x41, 0x42, 0x92, 0x44,
    0x90, 0x68, 0x6B, 0x69, 0x00, 0x43, 0x00, 0x45,
    0x00, 0x6A, 0x49, 0x4A, 0x4B, 0x4C, 0x3D, 0x4D,
    0x3B, 0x4E, 0x3A, 0x50, 0x4F, 0x51, 0x52, 0x00,
];

/// The HID usage a macOS keycode translates to (0 when unmapped).
pub open spec fn hid_usage(mac_keycode: u16) -> u8 {
    if (mac_keycode as int) < 128 { MAC_TO_HID@[mac_keycode as int] } else { 0 }
}

/// Translate a macOS virtual keycode to a USB HID keycode.
/// Returns 0 (no key) for unmapped keycodes.
pub fn mac_to_hid(mac_keycode: u16) -> (hid: u8)
    ensures
        hid == hid_usage(mac_keycode),
{
    let idx = mac_keycode as usize;
    if idx < MAC_KEYCODE_COUNT {
        MAC_TO_HID[idx]
    } else {
        0
    }
}

/// The consumer usage bit a macOS media keycode stands for.
pub open spec fn consumer_usage(mac_keycode: u16) -> Option<u16> {
    if mac_keycode == 0x48 {
        Some(CONSUMER_VOLUME_UP)
    } else if mac_keycode == 0x49 {
        Some(CONSUMER_VOLUME_DOWN)
    } else if mac_keycode == 0x4A {
        Some(CONSUMER_MUTE)
    } else {
        None
    }
}

/// Translate a macOS virtual keycode to a semantic consumer usage bit.
pub fn mac_to_consumer(mac_keycode: u16) -> (usage: Option<u16>)
    ensures
        usage == consumer_usage(mac_keycode),
{
    if mac_keycode == 0x48 {
        Some(CONSUMER_VOLUME_UP)
    } else if mac_keycode == 0x49 {
        Some(CONSUMER_VOLUME_DOWN)
    } else if mac_keycode == 0x4A {
        Some(CONSUMER_MUTE)
    } else {
        None
    }
}

/// Whether a HID usage is one of the eight modifier keys (0xE0..=0xE7).
pub open spec fn is_modifier_usage(hid: u8) -> bool {
    0xE0 <= hid <= 0xE7
}

/// The modifier bit of a macOS keycode: bit `hid - 0xE0` when the keycode
/// translates to a modifier usage.
pub open spec fn modifier_bit(mac_keycode: u16) -> Option<u8> {
    let hid = hid_usage(mac_keycode);
    if is_modifier_usage(hid) {
        Some(1u8 << ((hid - 0xE0) as u8))
    } else {
        None
    }
}

/// Return the modifier bit represented by this macOS keycode, if any.
pub fn modifier_mask(mac_keycode: u16) -> (mask: Option<u8>)
    ensures
        mask == modifier_bit(mac_keycode),
{
    let hid = mac_to_hid(mac_keycode);
    if 0xE0 <= hid && hid <= 0xE7 {
        Some(1u8 << (hid - 0xE0))
    } else {
        None
    }
}

/// A modifier mask has exactly one bit set, and distinct modifier usages
/// give distinct bits.
pub proof fn lemma_modifier_mask_single_bit(a: u16, b: u16)
    requires
        modifier_bit(a) is Some,
        modifier_bit(b) is Some,
    ensures
        modifier_bit(a)->Some_0 != 0,
        modifier_bit(a)->Some_0 & (modifier_bit(a)->Some_0 - 1) as u8 == 0,
        hid_usage(a) != hid_usage(b) ==> modifier_bit(a) != modifier_bit(b),
{
    let x = (hid_usage(a) - 0xE0) as u8;
    let y = (hid_usage(b) - 0xE0) as u8;
    assert(x < 8 ==> (1u8 << x) != 0 && (1u8 << x) & (((1u8 << x) - 1) as u8) == 0) by (bit_vector);
    assert(x < 8 && y < 8 && x != y ==> (1u8 << x) != (1u8 << y)) by (bit_vector);
}

/// Whether a value is a HID usage the keycode table can produce: none (0),
/// a keyboard usage in 0x04..=0x92, or a modifier usage.
pub open spec fn is_table_usage(hid: u8) -> bool {
    hid == 0 || (0x04 <= hid && hid <= 0x92) || is_modifier_usage(hid)
}

/// The macOS keycode whose table entry is `usage`, or -1 when none is.
spec fn keycode_of_usage(usage: u8) -> int {
    if usage == 0x04 {
        0
    } else if usage == 0x16 {
        1
    } else if usage == 0x07 {
        2
    } else if usage == 0x09 {
        3
    } else if usage == 0x0B {
        4
    } else if usage == 0x0A {
        5
    } else if usage == 0x1D {
        6
    } else if usage == 0x1B {
        7
    } else if usage == 0x06 {
        8
    } else if usage == 0x19 {
        9
    } else if usage == 0x64 {
        10
    } else if usage == 0x05 {
        11
    } else if usage == 0x14 {
        12
    } else if usage == 0x1A {
        13
    } else if usage == 0x08 {
        14
    } else if usage == 0x15 {
        15
    } else if usage == 0x1C {
        16
    } else if usage == 0x17 {
        17
    } else if usage == 0x1E {
        18
    } else if usage == 0x1F {
        19
    } else if usage == 0x20 {
        20
    } else if usage == 0x21 {
        21
    } else if usage == 0x23 {
        22
    } else if usage == 0x22 {
        23
    } else if usage == 0x2E {
        24
    } else if usage == 0x26 {
        25
    } else if usage == 0x24 {
        26
    } else if usage == 0x2D {
        27
    } else if usage == 0x25 {
        28
    } else if usage == 0x27 {
        29
    } else if usage == 0x30 {
        30
    } else if usage == 0x12 {
        31
    } else if usage == 0x18 {
        32
    } else if usage == 0x2F {
        33
    } else if usage == 0x0C {
        34
    } else if usage == 0x13 {
        35
    } else if usage == 0x28 {
        36
    } else if usage == 0x0F {
        37
    } else if usage == 0x0D {
        38
    } else if usage == 0x34 {
        39
    } else if usage == 0x0E {
        40
    } else if usage == 0x33 {
        41
    } else if usage == 0x31 {
        42
    } else if usage == 0x36 {
        43
    } else if usage == 0x38 {
        44
    } else if usage == 0x11 {
        45
    } else if usage == 0x10 {
        46
    } else if usage == 0x37 {
        47
    } else if usage == 0x2B {
        48
    } else if usage == 0x2C {
        49
    } else if usage == 0x35 {
        50
    } else if usage == 0x2A {
        51
    } else if usage == 0x29 {
        53
    } else if usage == 0xE7 {
        54
    } else if usage == 0xE3 {
        55
    } else if usage == 0xE1 {
        56
    } else if usage == 0x39 {
        57
    } else if usage == 0xE2 {
        58
    } else if usage == 0xE0 {
        59
    } else if usage == 0xE5 {
        60
    } else if usage == 0xE6 {
        61
    } else if usage == 0xE4 {
        62
    } else if usage == 0x6C {
        64
    } else if usage == 0x63 {
        65
    } else if usage == 0x55 {
        67
    } else if usage == 0x57 {
        69
    } else if usage == 0x53 {
        71
    } else if usage == 0x80 {
        72
    } else if usage == 0x81 {
        73
    } else if usage == 0x7F {
        74
    } else if usage == 0x54 {
        75
    } else if usage == 0x58 {
        76
    } else if usage == 0x56 {
        78
    } else if usage == 0x6D {
        79
    } else if usage == 0x6E {
        80
    } else if usage == 0x67 {
        81
    } else if usage == 0x62 {
        82
    } else if usage == 0x59 {
        83
    } else if usage == 0x5A {
        84
    } else if usage == 0x5B {
        85
    } else if usage == 0x5C {
        86
    } else if usage == 0x5D {
        87
    } else if usage == 0x5E {
        88
    } else if usage == 0x5F {
        89
    } else if usage == 0x6F {
        90
    } else if usage == 0x60 {
        91
    } else if usage == 0x61 {
        92
    } else if usage == 0x89 {
        93
    } else if usage == 0x87 {
        94
    } else if usage == 0x85 {
        95
    } else if usage == 0x3E {
        96
    } else if usage == 0x3F {
        97
    } else if usage == 0x40 {
        98
    } else if usage == 0x3C {
        99
    } else if usage == 0x41 {
        100
    } else if usage == 0x42 {
        101
    } else if usage == 0x92 {
        102
    } else if usage == 0x44 {
        103
    } else if usage == 0x90 {
        104
    } else if usage == 0x68 {
        105
    } else if usage == 0x6B {
        106
    } else if usage == 0x69 {
        107
    } else if usage == 0x43 {
        109
    } else if usage == 0x45 {
        111
    } else if usage == 0x6A {
        113
    } else if usage == 0x49 {
        114
    } else if usage == 0x4A {
        115
    } else if usage == 0x4B {
        116
    } else if usage == 0x4C {
        117
    } else if usage == 0x3D {
        118
    } else if usage == 0x4D {
        119
    } else if usage == 0x3B {
        120
    } else if usage == 0x4E {
        121
    } else if usage == 0x3A {
        122
    } else if usage == 0x50 {
        123
    } else if usage == 0x4F {
        124
    } else if usage == 0x51 {
        125
    } else if usage == 0x52 {
        126
    } else {
        -1
    }
}

/// Each table entry is a table usage, and each nonzero entry is found again
/// by `keycode_of_usage`.
proof fn lemma_table_entry(k: int)
    requires
        0 <= k < 128,
    ensures
        is_table_usage(MAC_TO_HID@[k]),
        MAC_TO_HID@[k] != 0 ==> keycode_of_usage(MAC_TO_HID@[k]) == k,
{
    if k == 0 {
        assert(MAC_TO_HID@[0] == 0x04);
    } else if k == 1 {
        assert(MAC_TO_HID@[1] == 0x16);
    } else if k == 2 {
        assert(MAC_TO_HID@[2] == 0x07);
    } else if k == 3 {
        assert(MAC_TO_HID@[3] == 0x09);
    } else if k == 4 {
        assert(MAC_TO_HID@[4] == 0x0B);
    } else if k == 5 {
        assert(MAC_TO_HID@[5] == 0x0A);
    } else if k == 6 {
        assert(MAC_TO_HID@[6] == 0x1D);
    } else if k == 7 {
        assert(MAC_TO_HID@[7] == 0x1B);
    } else if k == 8 {
        assert(MAC_TO_HID@[8] == 0x06);
    } else if k == 9 {
        assert(MAC_TO_HID@[9] == 0x19);
    } else if k == 10 {
        assert(MAC_TO_HID@[10] == 0x64);
    } else if k == 11 {
        assert(MAC_TO_HID@[11] == 0x05);
    } else if k == 12 {
        assert(MAC_TO_HID@[12] == 0x14);
    } else if k == 13 {
        assert(MAC_TO_HID@[13] == 0x1A);
    } else if k == 14 {
        assert(MAC_TO_HID@[14] == 0x08);
    } else if k == 15 {
        assert(MAC_TO_HID@[15] == 0x15);
    } else if k == 16 {
        assert(MAC_TO_HID@[16] == 0x1C);
    } else if k == 17 {
        assert(MAC_TO_HID@[17] == 0x17);
    } else if k == 18 {
        assert(MAC_TO_HID@[18] == 0x1E);
    } else if k == 19 {
        assert(MAC_TO_HID@[19] == 0x1F);
    } else if k == 20 {
        assert(MAC_TO_HID@[20] == 0x20);
    } else if k == 21 {
        assert(MAC_TO_HID@[21] == 0x21);
    } else if k == 22 {
        assert(MAC_TO_HID@[22] == 0x23);
    } else if k == 23 {
        assert(MAC_TO_HID@[23] == 0x22);
    } else if k == 24 {
        assert(MAC_TO_HID@[24] == 0x2E);
    } else if k == 25 {
        assert(MAC_TO_HID@[25] == 0x26);
    } else if k == 26 {
        assert(MAC_TO_HID@[26] == 0x24);
    } else if k == 27 {
        assert(MAC_TO_HID@[27] == 0x2D);
    } else if k == 28 {
        assert(MAC_TO_HID@[28] == 0x25);
    } else if k == 29 {
        assert(MAC_TO_HID@[29] == 0x27);
    } else if k == 30 {
        assert(MAC_TO_HID@[30] == 0x30);
    } else if k == 31 {
        assert(MAC_TO_HID@[31] == 0x12);
    } else if k == 32 {
        assert(MAC_TO_HID@[32] == 0x18);
    } else if k == 33 {
        assert(MAC_TO_HID@[33] == 0x2F);
    } else if k == 34 {
        assert(MAC_TO_HID@[34] == 0x0C);
    } else if k == 35 {
        assert(MAC_TO_HID@[35] == 0x13);
    } else if k == 36 {
        assert(MAC_TO_HID@[36] == 0x28);
    } else if k == 37 {
        assert(MAC_TO_HID@[37] == 0x0F);
    } else if k == 38 {
        assert(MAC_TO_HID@[38] == 0x0D);
    } else if k == 39 {
        assert(MAC_TO_HID@[39] == 0x34);
    } else if k == 40 {
        assert(MAC_TO_HID@[40] == 0x0E);
    } else if k == 41 {
        assert(MAC_TO_HID@[41] == 0x33);
    } else if k == 42 {
        assert(MAC_TO_HID@[42] == 0x31);
    } else if k == 43 {
        assert(MAC_TO_HID@[43] == 0x36);
    } else if k == 44 {
        assert(MAC_TO_HID@[44] == 0x38);
    } else if k == 45 {
        assert(MAC_TO_HID@[45] == 0x11);
    } else if k == 46 {
        assert(MAC_TO_HID@[46] == 0x10);
    } else if k == 47 {
        assert(MAC_TO_HID@[47] == 0x37);
    } else if k == 48 {
        assert(MAC_TO_HID@[48] == 0x2B);
    } else if k == 49 {
        assert(MAC_TO_HID@[49] == 0x2C);
    } else if k == 50 {
        assert(MAC_TO_HID@[50] == 0x35);
    } else if k == 51 {
        assert(MAC_TO_HID@[51] == 0x2A);
    } else if k == 52 {
        assert(MAC_TO_HID@[52] == 0x00);
    } else if k == 53 {
        assert(MAC_TO_HID@[53] == 0x29);
    } else if k == 54 {
        assert(MAC_TO_HID@[54] == 0xE7);
    } else if k == 55 {
        assert(MAC_TO_HID@[55] == 0xE3);
    } else if k == 56 {
        assert(MAC_TO_HID@[56] == 0xE1);
    } else if k == 57 {
        assert(MAC_TO_HID@[57] == 0x39);
    } else if k == 58 {
        assert(MAC_TO_HID@[58] == 0xE2);
    } else if k == 59 {
        assert(MAC_TO_HID@[59] == 0xE0);
    } else if k == 60 {
        assert(MAC_TO_HID@[60] == 0xE5);
    } else if k == 61 {
        assert(MAC_TO_HID@[61] == 0xE6);
    } else if k == 62 {
        assert(MAC_TO_HID@[62] == 0xE4);
    } else if k == 63 {
        assert(MAC_TO_HID@[63] == 0x00);
    } else if k == 64 {
        assert(MAC_TO_HID@[64] == 0x6C);
    } else if k == 65 {
        assert(MAC_TO_HID@[65] == 0x63);
    } else if k == 66 {
        assert(MAC_TO_HID@[66] == 0x00);
    } else if k == 67 {
        assert(MAC_TO_HID@[67] == 0x55);
    } else if k == 68 {
        assert(MAC_TO_HID@[68] == 0x00);
    } else if k == 69 {
        assert(MAC_TO_HID@[69] == 0x57);
    } else if k == 70 {
        assert(MAC_TO_HID@[70] == 0x00);
    } else if k == 71 {
        assert(MAC_TO_HID@[71] == 0x53);
    } else if k == 72 {
        assert(MAC_TO_HID@[72] == 0x80);
    } else if k == 73 {
        assert(MAC_TO_HID@[73] == 0x81);
    } else if k == 74 {
        assert(MAC_TO_HID@[74] == 0x7F);
    } else if k == 75 {
        assert(MAC_TO_HID@[75] == 0x54);
    } else if k == 76 {
        assert(MAC_TO_HID@[76] == 0x58);
    } else if k == 77 {
        assert(MAC_TO_HID@[77] == 0x00);
    } else if k == 78 {
        assert(MAC_TO_HID@[78] == 0x56);
    } else if k == 79 {
        assert(MAC_TO_HID@[79] == 0x6D);
    } else if k == 80 {
        assert(MAC_TO_HID@[80] == 0x6E);
    } else if k == 81 {
        assert(MAC_TO_HID@[81] == 0x67);
    } else if k == 82 {
        assert(MAC_TO_HID@[82] == 0x62);
    } else if k == 83 {
        assert(MAC_TO_HID@[83] == 0x59);
    } else if k == 84 {
        assert(MAC_TO_HID@[84] == 0x5A);
    } else if k == 85 {
        assert(MAC_TO_HID@[85] == 0x5B);
    } else if k == 86 {
        assert(MAC_TO_HID@[86] == 0x5C);
    } else if k == 87 {
        assert(MAC_TO_HID@[87] == 0x5D);
    } else if k == 88 {
        assert(MAC_TO_HID@[88] == 0x5E);
    } else if k == 89 {
        assert(MAC_TO_HID@[89] == 0x5F);
    } else if k == 90 {
        assert(MAC_TO_HID@[90] == 0x6F);
    } else if k == 91 {
        assert(MAC_TO_HID@[91] == 0x60);
    } else if k == 92 {
        assert(MAC_TO_HID@[92] == 0x61);
    } else if k == 93 {
        assert(MAC_TO_HID@[93] == 0x89);
    } else if k == 94 {
        assert(MAC_TO_HID@[94] == 0x87);
    } else if k == 95 {
        assert(MAC_TO_HID@[95] == 0x85);
    } else if k == 96 {
        assert(MAC_TO_HID@[96] == 0x3E);
    } else if k == 97 {
        assert(MAC_TO_HID@[97] == 0x3F);
    } else if k == 98 {
        assert(MAC_TO_HID@[98] == 0x40);
    } else if k == 99 {
        assert(MAC_TO_HID@[99] == 0x3C);
    } else if k == 100 {
        assert(MAC_TO_HID@[100] == 0x41);
    } else if k == 101 {
        assert(MAC_TO_HID@[101] == 0x42);
    } else if k == 102 {
        assert(MAC_TO_HID@[102] == 0x92);
    } else if k == 103 {
        assert(MAC_TO_HID@[103] == 0x44);
    } else if k == 104 {
        assert(MAC_TO_HID@[104] == 0x90);
    } else if k == 105 {
        assert(MAC_TO_HID@[105] == 0x68);
    } else if k == 106 {
        assert(MAC_TO_HID@[106] == 0x6B);
    } else if k == 107 {
        assert(MAC_TO_HID@[107] == 0x69);
    } else if k == 108 {
        assert(MAC_TO_HID@[108] == 0x00);
    } else if k == 109 {
        assert(MAC_TO_HID@[109] == 0x43);
    } else if k == 110 {
        assert(MAC_TO_HID@[110] == 0x00);
    } else if k == 111 {
        assert(MAC_TO_HID@[111] == 0x45);
    } else if k == 112 {
        assert(MAC_TO_HID@[112] == 0x00);
    } else if k == 113 {
        assert(MAC_TO_HID@[113] == 0x6A);
    } else if k == 114 {
        assert(MAC_TO_HID@[114] == 0x49);
    } else if k == 115 {
        assert(MAC_TO_HID@[115] == 0x4A);
    } else if k == 116 {
        assert(MAC_TO_HID@[116] == 0x4B);
    } else if k == 117 {
        assert(MAC_TO_HID@[117] == 0x4C);
    } else if k == 118 {
        assert(MAC_TO_HID@[118] == 0x3D);
    } else if k == 119 {
        assert(MAC_TO_HID@[119] == 0x4D);
    } else if k == 120 {
        assert(MAC_TO_HID@[120] == 0x3B);
    } else if k == 121 {
        assert(MAC_TO_HID@[121] == 0x4E);
    } else if k == 122 {
        assert(MAC_TO_HID@[122] == 0x3A);
    } else if k == 123 {
        assert(MAC_TO_HID@[123] == 0x50);
    } else if k == 124 {
        assert(MAC_TO_HID@[124] == 0x4F);
    } else if k == 125 {
        assert(MAC_TO_HID@[125] == 0x51);
    } else if k == 126 {
        assert(MAC_TO_HID@[126] == 0x52);
    } else if k == 127 {
        assert(MAC_TO_HID@[127] == 0x00);
    }
}

/// Every macOS keycode translates to no key, a keyboard usage in
/// 0x04..=0x92 or a modifier usage; keycodes past the table translate to
/// no key.
pub proof fn lemma_hid_usage_range(mac_keycode: u16)
    ensures
        is_table_usage(hid_usage(mac_keycode)),
        mac_keycode >= 128 ==> hid_usage(mac_keycode) == 0,
{
    if mac_keycode < 128 {
        lemma_table_entry(mac_keycode as int);
    }
}

/// Distinct macOS keycodes never translate to the same key.
pub proof fn lemma_hid_usage_injective(a: u16, b: u16)
    requires
        hid_usage(a) == hid_usage(b),
        hid_usage(a) != 0,
    ensures
        a == b,
{
    lemma_table_entry(a as int);
    lemma_table_entry(b as int);
}

} // verus!
