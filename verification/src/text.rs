//! The textual forms of numbers and addresses.

use vstd::prelude::*;
use crate::address::IpAddr;
use crate::util::low_32;

verus! {

/// `String::push` appends the character to the end of the string.
pub assume_specification[ std::string::String::push ](s: &mut std::string::String, c: char)
    ensures
        final(s)@ == old(s)@.push(c),
;

/// The character that writes a digit below sixteen, in lower case.
pub open spec fn digit_char(digit: nat) -> char {
    if digit == 0 {
        '0'
    } else if digit == 1 {
        '1'
    } else if digit == 2 {
        '2'
    } else if digit == 3 {
        '3'
    } else if digit == 4 {
        '4'
    } else if digit == 5 {
        '5'
    } else if digit == 6 {
        '6'
    } else if digit == 7 {
        '7'
    } else if digit == 8 {
        '8'
    } else if digit == 9 {
        '9'
    } else if digit == 10 {
        'a'
    } else if digit == 11 {
        'b'
    } else if digit == 12 {
        'c'
    } else if digit == 13 {
        'd'
    } else if digit == 14 {
        'e'
    } else {
        'f'
    }
}

/// A number written in decimal, without leading zeros; zero is written as
/// one digit.
pub open spec fn decimal_text(n: nat) -> Seq<char>
    decreases n,
{
    if n < 10 {
        seq![digit_char(n)]
    } else {
        decimal_text(n / 10).push(digit_char(n % 10))
    }
}

/// A number written in lower-case hexadecimal, without leading zeros; zero
/// is written as one digit.
pub open spec fn hex_text(n: nat) -> Seq<char>
    decreases n,
{
    if n < 16 {
        seq![digit_char(n)]
    } else {
        hex_text(n / 16).push(digit_char(n % 16))
    }
}

fn digit_to_char(digit: u32) -> (c: char)
    requires
        digit < 16,
    ensures
        c == digit_char(digit as nat),
{
    if digit == 0 {
        '0'
    } else if digit == 1 {
        '1'
    } else if digit == 2 {
        '2'
    } else if digit == 3 {
        '3'
    } else if digit == 4 {
        '4'
    } else if digit == 5 {
        '5'
    } else if digit == 6 {
        '6'
    } else if digit == 7 {
        '7'
    } else if digit == 8 {
        '8'
    } else if digit == 9 {
        '9'
    } else if digit == 10 {
        'a'
    } else if digit == 11 {
        'b'
    } else if digit == 12 {
        'c'
    } else if digit == 13 {
        'd'
    } else if digit == 14 {
        'e'
    } else {
        'f'
    }
}

/// Appends a number, written in decimal, to a string.
pub fn push_decimal(out: &mut String, n: u64)
    ensures
        final(out)@ == old(out)@ + decimal_text(n as nat),
    decreases n,
{
    if n >= 10 {
        push_decimal(out, n / 10);
    }
    out.push(digit_to_char((n % 10) as u32));
    assert(out@ =~= old(out)@ + decimal_text(n as nat));
}

/// Appends a number, written in lower-case hexadecimal, to a string.
pub fn push_hex(out: &mut String, n: u32)
    ensures
        final(out)@ == old(out)@ + hex_text(n as nat),
    decreases n,
{
    if n >= 16 {
        push_hex(out, n / 16);
    }
    out.push(digit_to_char(n % 16));
    assert(out@ =~= old(out)@ + hex_text(n as nat));
}

/// The octet of an IPv4 address at a position, counted from the most
/// significant one.
pub open spec fn octet_v4(bits: u32, index: nat) -> nat {
    ((bits >> ((24 - 8 * index) as u32)) & 0xff) as nat
}

/// The dotted form of an IPv4 address: four decimal octets.
pub open spec fn ipv4_text(bits: u32) -> Seq<char> {
    decimal_text(octet_v4(bits, 0)) + seq!['.'] + decimal_text(octet_v4(bits, 1)) + seq!['.']
        + decimal_text(octet_v4(bits, 2)) + seq!['.'] + decimal_text(octet_v4(bits, 3))
}

/// Appends the dotted form of an IPv4 address to a string.
pub fn push_ipv4(out: &mut String, bits: u32)
    ensures
        final(out)@ == old(out)@ + ipv4_text(bits),
{
    push_decimal(out, ((bits >> 24) & 0xff) as u64);
    out.push('.');
    push_decimal(out, ((bits >> 16) & 0xff) as u64);
    out.push('.');
    push_decimal(out, ((bits >> 8) & 0xff) as u64);
    out.push('.');
    push_decimal(out, (bits & 0xff) as u64);
    proof {
        assert(bits >> 0u32 == bits) by (bit_vector);
        assert(out@ =~= old(out)@ + ipv4_text(bits));
    }
}

/// The 16-bit group of an IPv6 address at a position, counted from the most
/// significant one.
pub open spec fn group_v6(bits: u128, index: nat) -> nat {
    ((bits >> ((112 - 16 * index) as u128)) & 0xffff) as nat
}

/// The hexadecimal groups `from..to` of an IPv6 address, joined by colons.
pub open spec fn groups_text(bits: u128, from: nat, to: nat) -> Seq<char>
    decreases to,
{
    if from >= to {
        Seq::empty()
    } else if from + 1 == to {
        hex_text(group_v6(bits, from))
    } else {
        groups_text(bits, from, (to - 1) as nat) + seq![':'] + hex_text(
            group_v6(bits, (to - 1) as nat),
        )
    }
}

/// The number of consecutive zero groups of an IPv6 address that start at a
/// position.
pub open spec fn zero_run(bits: u128, index: nat) -> nat
    decreases 8 - index,
{
    if index >= 8 || group_v6(bits, index) != 0 {
        0
    } else {
        1 + zero_run(bits, index + 1)
    }
}

/// The start and the length of the longest run of zero groups that starts at
/// `index` or later, the leftmost one of that length; `(8, 0)` where no group
/// from there on is zero.
pub open spec fn longest_zero_run(bits: u128, index: nat) -> (nat, nat)
    decreases 8 - index,
{
    if index >= 8 {
        (8, 0)
    } else {
        let later = longest_zero_run(bits, index + 1);
        if zero_run(bits, index) > 0 && zero_run(bits, index) >= later.1 {
            (index, zero_run(bits, index))
        } else {
            later
        }
    }
}

/// The canonical text of an IPv6 address: an IPv4-mapped address is `::ffff:`
/// and the dotted IPv4 address; in any other the leftmost longest run of two
/// or more zero groups is written `::`, and the remaining groups in
/// hexadecimal, joined by colons.
pub open spec fn ipv6_text(bits: u128) -> Seq<char> {
    if bits >> 32 == 0xffff {
        seq![':', ':', 'f', 'f', 'f', 'f', ':'] + ipv4_text(low_32(bits))
    } else {
        let (start, len) = longest_zero_run(bits, 0);
        if len >= 2 {
            groups_text(bits, 0, start) + seq![':', ':'] + groups_text(bits, start + len, 8)
        } else {
            groups_text(bits, 0, 8)
        }
    }
}

/// The text of an address.
pub open spec fn address_text(address: IpAddr) -> Seq<char> {
    match address {
        IpAddr::V4(bits) => ipv4_text(bits),
        IpAddr::V6(bits) => ipv6_text(bits),
    }
}

fn group_of(bits: u128, index: u32) -> (group: u32)
    requires
        index < 8,
    ensures
        group == group_v6(bits, index as nat),
        group <= 0xffff,
{
    let shift: u128 = (112 - 16 * index) as u128;
    let group: u128 = (bits >> shift) & 0xffff;
    assert(group <= 0xffff) by (bit_vector)
        requires
            group == (bits >> shift) & 0xffff,
    ;
    group as u32
}

fn push_groups(out: &mut String, bits: u128, from: u32, to: u32)
    requires
        from <= to <= 8,
    ensures
        final(out)@ == old(out)@ + groups_text(bits, from as nat, to as nat),
{
    let mut index: u32 = from;
    while index < to
        invariant
            from <= index <= to <= 8,
            out@ == old(out)@ + groups_text(bits, from as nat, index as nat),
        decreases to - index,
    {
        if index > from {
            out.push(':');
        }
        push_hex(out, group_of(bits, index));
        index += 1;
        assert(out@ =~= old(out)@ + groups_text(bits, from as nat, index as nat));
    }
}

fn find_longest_zero_run(bits: u128) -> (best: (u32, u32))
    ensures
        best.0 == longest_zero_run(bits, 0).0,
        best.1 == longest_zero_run(bits, 0).1,
        best.0 + best.1 <= 8,
{
    let mut index: u32 = 8;
    let mut run: u32 = 0;
    let mut best: (u32, u32) = (8, 0);
    while index > 0
        invariant
            index <= 8,
            run == zero_run(bits, index as nat),
            index + run <= 8,
            best.0 == longest_zero_run(bits, index as nat).0,
            best.1 == longest_zero_run(bits, index as nat).1,
            best.0 + best.1 <= 8,
        decreases index,
    {
        index -= 1;
        if group_of(bits, index) == 0 {
            run += 1;
        } else {
            run = 0;
        }
        if run > 0 && run >= best.1 {
            best = (index, run);
        }
    }
    best
}

/// Appends the canonical text of an IPv6 address to a string.
pub fn push_ipv6(out: &mut String, bits: u128)
    ensures
        final(out)@ == old(out)@ + ipv6_text(bits),
{
    if bits >> 32 == 0xffff {
        out.push(':');
        out.push(':');
        out.push('f');
        out.push('f');
        out.push('f');
        out.push('f');
        out.push(':');
        let low: u128 = bits & 0xffff_ffff;
        assert(low <= 0xffff_ffff) by (bit_vector)
            requires
                low == bits & 0xffff_ffff,
        ;
        push_ipv4(out, low as u32);
        assert(out@ =~= old(out)@ + ipv6_text(bits));
    } else {
        let (start, len) = find_longest_zero_run(bits);
        if len >= 2 {
            push_groups(out, bits, 0, start);
            out.push(':');
            out.push(':');
            push_groups(out, bits, start + len, 8);
            assert(out@ =~= old(out)@ + ipv6_text(bits));
        } else {
            push_groups(out, bits, 0, 8);
        }
    }
}

/// The text of an address.
pub fn address_to_string(address: &IpAddr) -> (text: String)
    ensures
        text@ == address_text(*address),
{
    let mut text = String::new();
    match address {
        IpAddr::V4(bits) => push_ipv4(&mut text, *bits),
        IpAddr::V6(bits) => push_ipv6(&mut text, *bits),
    }
    assert(text@ =~= address_text(*address));
    text
}

impl IpAddr {
    /// The text of the address.
    pub fn to_string(&self) -> (text: String)
        ensures
            text@ == address_text(*self),
    {
        address_to_string(self)
    }
}

} // verus!
