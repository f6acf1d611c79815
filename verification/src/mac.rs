//! Hardware (MAC) addresses: the all-zero test and the textual form.

use vstd::prelude::*;

verus! {

/// An address whose six bytes are all zero stands for "no address".
pub open spec fn all_zero(address: [u8; 6]) -> bool {
    forall|i: int| 0 <= i < 6 ==> address[i] == 0u8
}

/// The lowercase hexadecimal digit of a value below sixteen.
pub open spec fn hex_digit(nibble: int) -> char
    recommends
        0 <= nibble < 16,
{
    if nibble < 10 {
        ('0' as u8 + nibble) as u8 as char
    } else {
        ('a' as u8 + (nibble - 10)) as u8 as char
    }
}

/// The character at position `at` of an address's text. Byte `k` takes the
/// positions `3 * k` (its high digit) and `3 * k + 1` (its low digit), and a
/// colon stands at `3 * k + 2`, between it and the next byte.
pub open spec fn mac_char(address: [u8; 6], at: int) -> char
    recommends
        0 <= at < 17,
{
    if at % 3 == 2 {
        ':'
    } else if at % 3 == 0 {
        hex_digit(address[at / 3] as int / 16)
    } else {
        hex_digit(address[at / 3] as int % 16)
    }
}

/// The text of an address: six lowercase hex pairs in the order of the
/// bytes, joined by colons.
pub open spec fn mac_text(address: [u8; 6]) -> Seq<char> {
    Seq::new(17, |at: int| mac_char(address, at))
}

/// The digits that `format_mac` copies from are the ones `hex_digit` names.
proof fn lemma_digit_table(table: &str)
    requires
        table@ == "0123456789abcdef"@,
    ensures
        table@.len() == 16,
        table.is_ascii(),
        forall|n: int| 0 <= n < 16 ==> table@[n] == hex_digit(n),
{
    reveal_strlit("0123456789abcdef");
    let t = table@;
    assert(t[0] == hex_digit(0) && t[1] == hex_digit(1) && t[2] == hex_digit(2) && t[3]
        == hex_digit(3));
    assert(t[4] == hex_digit(4) && t[5] == hex_digit(5) && t[6] == hex_digit(6) && t[7]
        == hex_digit(7));
    assert(t[8] == hex_digit(8) && t[9] == hex_digit(9) && t[10] == hex_digit(10) && t[11]
        == hex_digit(11));
    assert(t[12] == hex_digit(12) && t[13] == hex_digit(13) && t[14] == hex_digit(14) && t[15]
        == hex_digit(15));
}

/// Whether the address is the all-zero one.
pub fn is_all_zero(address: &[u8; 6]) -> (zero: bool)
    ensures
        zero == all_zero(*address),
{
    address[0] == 0 && address[1] == 0 && address[2] == 0 && address[3] == 0 && address[4] == 0
        && address[5] == 0
}

/// Renders an address as text, for example `aa:bb:cc:dd:ee:ff`.
pub fn format_mac(address: &[u8; 6]) -> (text: String)
    ensures
        text@ == mac_text(*address),
{
    let table = "0123456789abcdef";
    proof {
        lemma_digit_table(table);
        reveal_strlit(":");
    }
    let mut text = String::new();
    let mut i: usize = 0;
    while i < 6
        invariant
            i <= 6,
            table@.len() == 16,
            table.is_ascii(),
            forall|n: int| 0 <= n < 16 ==> table@[n] == hex_digit(n),
            ":"@ == seq![':'],
            text@ == mac_text(*address).subrange(0, if i == 6 { 17 } else { 3 * i }),
        decreases 6 - i,
    {
        let byte: u8 = address[i];
        let high: usize = (byte / 16) as usize;
        let low: usize = (byte % 16) as usize;
        text.append(table.substring_ascii(high, high + 1));
        text.append(table.substring_ascii(low, low + 1));
        if i < 5 {
            text.append(":");
        }
        i += 1;
    }
    text
}

/// The sixteen hex digits are the characters `0` to `9` and `a` to `f`, and
/// no two of them are the same.
pub proof fn law_hex_digits(m: int, n: int)
    requires
        0 <= m < 16,
        0 <= n < 16,
    ensures
        '0' <= hex_digit(n) <= '9' || 'a' <= hex_digit(n) <= 'f',
        hex_digit(m) == hex_digit(n) ==> m == n,
{
}

/// The text keeps every byte of the address in its place: two addresses
/// with the same text are the same.
pub proof fn law_mac_text_identifies_address(first: [u8; 6], second: [u8; 6])
    requires
        mac_text(first) == mac_text(second),
    ensures
        first == second,
{
    assert forall|k: int| 0 <= k < 6 implies first[k] == second[k] by {
        let high = mac_text(first)[3 * k];
        let low = mac_text(first)[3 * k + 1];
        assert(high == mac_char(first, 3 * k) && high == mac_char(second, 3 * k));
        assert(low == mac_char(first, 3 * k + 1) && low == mac_char(second, 3 * k + 1));
        law_hex_digits(first[k] as int / 16, second[k] as int / 16);
        law_hex_digits(first[k] as int % 16, second[k] as int % 16);
    }
    assert(first@ =~= second@);
}

} // verus!
