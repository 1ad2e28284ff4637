//! Text helpers for the host's serial tools.
use vstd::prelude::*;

verus! {

/// Upper-case hexadecimal digit of a value below 16.
pub open spec fn hex_digit(n: u8) -> char
    recommends
        n < 16,
{
    if n < 10 {
        (('0' as u8) + n) as char
    } else {
        (('A' as u8) + (n - 10)) as char
    }
}

/// Two upper-case hexadecimal digits of a byte.
pub open spec fn hex_byte(b: u8) -> Seq<char> {
    seq![hex_digit(b / 16), hex_digit(b % 16)]
}

/// A BLE address (little-endian bytes) written most significant byte
/// first, as colon-separated upper-case hex pairs.
pub open spec fn addr_text(addr: [u8; 6]) -> Seq<char> {
    hex_byte(addr[5]) + seq![':'] + hex_byte(addr[4]) + seq![':'] + hex_byte(addr[3]) + seq![':']
        + hex_byte(addr[2]) + seq![':'] + hex_byte(addr[1]) + seq![':'] + hex_byte(addr[0])
}

fn digit_str(n: u8) -> (s: &'static str)
    requires
        n < 16,
    ensures
        s@ == seq![hex_digit(n)],
{
    let s = match n {
        0 => "0",
        1 => "1",
        2 => "2",
        3 => "3",
        4 => "4",
        5 => "5",
        6 => "6",
        7 => "7",
        8 => "8",
        9 => "9",
        10 => "A",
        11 => "B",
        12 => "C",
        13 => "D",
        14 => "E",
        _ => "F",
    };
    proof {
        reveal_strlit("0");
        reveal_strlit("1");
        reveal_strlit("2");
        reveal_strlit("3");
        reveal_strlit("4");
        reveal_strlit("5");
        reveal_strlit("6");
        reveal_strlit("7");
        reveal_strlit("8");
        reveal_strlit("9");
        reveal_strlit("A");
        reveal_strlit("B");
        reveal_strlit("C");
        reveal_strlit("D");
        reveal_strlit("E");
        reveal_strlit("F");
        assert(s@ =~= seq![hex_digit(n)]);
    }
    s
}

fn push_hex_byte(out: &mut String, b: u8)
    ensures
        final(out)@ == old(out)@ + hex_byte(b),
{
    out.append(digit_str(b / 16));
    out.append(digit_str(b % 16));
    assert(final(out)@ =~= old(out)@ + hex_byte(b));
}

fn push_colon(out: &mut String)
    ensures
        final(out)@ == old(out)@ + seq![':'],
{
    let colon = ":";
    proof {
        reveal_strlit(":");
    }
    out.append(colon);
}

/// Format a BLE address (little-endian bytes) as a colon-separated string,
/// most significant byte first, e.g. `AA:BB:CC:DD:EE:FF`.
pub fn format_addr(addr: &[u8; 6]) -> (text: String)
    ensures
        text@ == addr_text(*addr),
        text@.len() == 17,
{
    let mut out = String::new();
    push_hex_byte(&mut out, addr[5]);
    push_colon(&mut out);
    push_hex_byte(&mut out, addr[4]);
    push_colon(&mut out);
    push_hex_byte(&mut out, addr[3]);
    push_colon(&mut out);
    push_hex_byte(&mut out, addr[2]);
    push_colon(&mut out);
    push_hex_byte(&mut out, addr[1]);
    push_colon(&mut out);
    push_hex_byte(&mut out, addr[0]);
    assert(out@ =~= addr_text(*addr));
    out
}

} // verus!
