//! Normalising, masking and measuring addresses and netmasks.

use vstd::prelude::*;
use crate::address::{AddressError, IpAddr};

verus! {

/// The number that a run of octets spells when read most significant first.
pub open spec fn be_value(octets: Seq<u8>) -> nat
    decreases octets.len(),
{
    if octets.len() == 0 {
        0
    } else {
        be_value(octets.drop_last()) * 256 + octets.last() as nat
    }
}

/// 256 to the power `n`.
pub open spec fn pow256(n: nat) -> nat
    decreases n,
{
    if n == 0 {
        1
    } else {
        256 * pow256((n - 1) as nat)
    }
}

/// A run of `n` octets spells a number below 256 to the power `n`.
pub proof fn lemma_be_value_bound(octets: Seq<u8>)
    ensures
        be_value(octets) < pow256(octets.len()),
    decreases octets.len(),
{
    if octets.len() > 0 {
        lemma_be_value_bound(octets.drop_last());
    }
}

/// A higher power of 256 is no smaller.
pub proof fn lemma_pow256_monotonic(a: nat, b: nat)
    requires
        a <= b,
    ensures
        pow256(a) <= pow256(b),
    decreases b,
{
    if a < b {
        lemma_pow256_monotonic(a, (b - 1) as nat);
    }
}

/// The 32-bit integer that four octets spell, most significant first.
pub fn ipv4_to_u32(ip: &[u8; 4]) -> (ip_int: u32)
    ensures
        ip_int == be_value(ip@),
{
    let mut ip_int: u32 = 0;
    let mut i: usize = 0;
    while i < 4
        invariant
            i <= 4,
            ip_int == be_value(ip@.take(i as int)),
        decreases 4 - i,
    {
        proof {
            let next = ip@.take(i + 1);
            assert(next.drop_last() =~= ip@.take(i as int));
            lemma_be_value_bound(ip@.take(i as int));
            lemma_pow256_monotonic(i as nat, 3);
            reveal_with_fuel(pow256, 4);
        }
        ip_int = ip_int * 256 + ip[i] as u32;
        i += 1;
    }
    assert(ip@.take(4) =~= ip@);
    ip_int
}

/// The 128-bit integer that sixteen octets spell, most significant first.
pub fn ipv6_to_u128(ip: &[u8; 16]) -> (ip_int: u128)
    ensures
        ip_int == be_value(ip@),
{
    let mut ip_int: u128 = 0;
    let mut i: usize = 0;
    while i < 16
        invariant
            i <= 16,
            ip_int == be_value(ip@.take(i as int)),
        decreases 16 - i,
    {
        proof {
            let next = ip@.take(i + 1);
            assert(next.drop_last() =~= ip@.take(i as int));
            lemma_be_value_bound(ip@.take(i as int));
            lemma_pow256_monotonic(i as nat, 15);
            reveal_with_fuel(pow256, 16);
        }
        ip_int = ip_int * 256 + ip[i] as u128;
        i += 1;
    }
    assert(ip@.take(16) =~= ip@);
    ip_int
}

impl IpAddr {
    /// The IPv4 address that four octets spell, most significant first.
    pub fn from_v4_octets(octets: &[u8; 4]) -> (address: IpAddr)
        ensures
            address == IpAddr::V4(be_value(octets@) as u32),
    {
        IpAddr::V4(ipv4_to_u32(octets))
    }

    /// The IPv6 address that sixteen octets spell, most significant first.
    pub fn from_v6_octets(octets: &[u8; 16]) -> (address: IpAddr)
        ensures
            address == IpAddr::V6(be_value(octets@) as u128),
    {
        IpAddr::V6(ipv6_to_u128(octets))
    }
}

/// Whether a 128-bit address stands for an IPv4 address: its upper 96 bits
/// are zero (IPv4-compatible), or its upper 80 bits are zero and the next 16
/// are all ones (IPv4-mapped).
pub open spec fn embeds_v4(bits: u128) -> bool {
    bits >> 32 == 0 || bits >> 32 == 0xffff
}

/// The low 32 bits of a 128-bit value.
pub open spec fn low_32(bits: u128) -> u32 {
    (bits & 0xffff_ffff) as u32
}

/// The canonical form of an address: an IPv6 address that stands for an IPv4
/// address becomes that IPv4 address, every other address is itself.
pub open spec fn normalized(address: IpAddr) -> IpAddr {
    match address {
        IpAddr::V4(_) => address,
        IpAddr::V6(bits) => if embeds_v4(bits) {
            IpAddr::V4(low_32(bits))
        } else {
            address
        },
    }
}

/// A netmask brought to the IPv4 family: an IPv6 netmask is cut to its low 32
/// bits, an IPv4 netmask is itself.
pub open spec fn truncated_v4(netmask: IpAddr) -> IpAddr {
    match netmask {
        IpAddr::V4(_) => netmask,
        IpAddr::V6(bits) => IpAddr::V4(low_32(bits)),
    }
}

/// The bitwise AND of an address and a netmask of the same family.
pub open spec fn masked(ip: IpAddr, netmask: IpAddr) -> Option<IpAddr> {
    match (ip, netmask) {
        (IpAddr::V4(a), IpAddr::V4(m)) => Some(IpAddr::V4(a & m)),
        (IpAddr::V6(a), IpAddr::V6(m)) => Some(IpAddr::V6(a & m)),
        _ => None,
    }
}

/// The number of one-bits at the top of the low `width` bits of `bits`,
/// counted from bit `width - 1` downwards until the first zero-bit.
pub open spec fn leading_ones_32(bits: u32, width: nat) -> nat
    decreases width,
{
    if width == 0 || width > 32 {
        0
    } else if (bits >> ((width - 1) as u32)) & 1 == 1 {
        1 + leading_ones_32(bits, (width - 1) as nat)
    } else {
        0
    }
}

/// As `leading_ones_32`, over 128 bits.
pub open spec fn leading_ones_128(bits: u128, width: nat) -> nat
    decreases width,
{
    if width == 0 || width > 128 {
        0
    } else if (bits >> ((width - 1) as u128)) & 1 == 1 {
        1 + leading_ones_128(bits, (width - 1) as nat)
    } else {
        0
    }
}

/// The prefix length that a netmask spells: an IPv4 netmask, and an IPv6
/// netmask that stands for an IPv4 one, is scanned over 32 bits, any other
/// IPv6 netmask over 128 bits.
pub open spec fn prefix_length(netmask: IpAddr) -> nat {
    match netmask {
        IpAddr::V4(bits) => leading_ones_32(bits, 32),
        IpAddr::V6(bits) => if embeds_v4(bits) {
            leading_ones_32(low_32(bits), 32)
        } else {
            leading_ones_128(bits, 128)
        },
    }
}

/// The IPv4 netmask of a prefix length: `prefix` one-bits, then zero-bits.
pub open spec fn netmask_bits_v4(prefix: u32) -> u32 {
    if prefix == 0 {
        0
    } else {
        0xffff_ffffu32 << ((32 - prefix) as u32)
    }
}

/// The IPv6 netmask of a prefix length: `prefix` one-bits, then zero-bits.
pub open spec fn netmask_bits_v6(prefix: u128) -> u128 {
    if prefix == 0 {
        0
    } else {
        0xffff_ffff_ffff_ffff_ffff_ffff_ffff_ffffu128 << ((128 - prefix) as u128)
    }
}

/// Brings a netmask to the IPv4 family by keeping its low 32 bits.
pub fn v6_to_v4(netmask: &IpAddr) -> (r: IpAddr)
    ensures
        r == truncated_v4(*netmask),
        r.is_v4(),
{
    match netmask {
        IpAddr::V4(_) => *netmask,
        IpAddr::V6(bits) => {
            let low: u128 = *bits & 0xffff_ffff;
            assert(low <= 0xffff_ffff) by (bit_vector)
                requires
                    low == *bits & 0xffff_ffff,
            ;
            IpAddr::V4(low as u32)
        },
    }
}

/// A netmask brought to the family of the address it is used against: against
/// an IPv4 address an IPv6 netmask is cut to its low 32 bits; against an IPv6
/// address the netmask is taken as it is, and an IPv4 netmask is not widened.
pub open spec fn netmask_in_family(netmask: IpAddr, target: IpAddr) -> IpAddr {
    if target.is_v4() {
        truncated_v4(netmask)
    } else {
        netmask
    }
}

/// Brings a netmask to the family of the address it is used against.
pub fn normalize_netmask(netmask: IpAddr, target: &IpAddr) -> (r: IpAddr)
    ensures
        r == netmask_in_family(netmask, *target),
        target.is_v4() ==> r.is_v4(),
{
    if target.is_ipv4() {
        v6_to_v4(&netmask)
    } else {
        netmask
    }
}

/// Brings an address to its canonical form.
pub fn normalize_address(address: IpAddr) -> (r: IpAddr)
    ensures
        r == normalized(address),
{
    match address {
        IpAddr::V4(_) => address,
        IpAddr::V6(bits) => {
            let high: u128 = bits >> 32;
            if high == 0 || high == 0xffff {
                v6_to_v4(&address)
            } else {
                address
            }
        },
    }
}

/// Masks an address with a netmask of its own family.
pub fn apply_netmask(ip: &IpAddr, netmask: &IpAddr) -> (r: Result<IpAddr, AddressError>)
    ensures
        match r {
            Ok(network) => masked(*ip, *netmask) == Some(network),
            Err(e) => e == AddressError::FamilyMismatch && !ip.same_family(*netmask),
        },
        ip.same_family(*netmask) ==> r is Ok,
{
    match (ip, netmask) {
        (IpAddr::V4(a), IpAddr::V4(m)) => Ok(IpAddr::V4(*a & *m)),
        (IpAddr::V6(a), IpAddr::V6(m)) => Ok(IpAddr::V6(*a & *m)),
        _ => Err(AddressError::FamilyMismatch),
    }
}

fn count_leading_ones_32(bits: u32) -> (n: u32)
    ensures
        n == leading_ones_32(bits, 32),
        n <= 32,
{
    let mut n: u32 = 0;
    while n < 32 && (bits >> (31 - n)) & 1 == 1
        invariant
            n <= 32,
            leading_ones_32(bits, 32) == n + leading_ones_32(bits, (32 - n) as nat),
        decreases 32 - n,
    {
        n += 1;
    }
    n
}

fn count_leading_ones_128(bits: u128) -> (n: u32)
    ensures
        n == leading_ones_128(bits, 128),
        n <= 128,
{
    let mut n: u32 = 0;
    while n < 128 && (bits >> (127 - n)) & 1 == 1
        invariant
            n <= 128,
            leading_ones_128(bits, 128) == n + leading_ones_128(bits, (128 - n) as nat),
        decreases 128 - n,
    {
        n += 1;
    }
    n
}

/// The prefix length of a netmask that is used against an IPv4 address.
pub fn get_netmask_prefix_ipv4(netmask: IpAddr) -> (prefix: u32)
    ensures
        prefix == prefix_length(netmask),
        prefix <= 128,
        netmask.is_v4() || normalized(netmask).is_v4() ==> prefix <= 32,
{
    match normalize_address(netmask) {
        IpAddr::V4(bits) => count_leading_ones_32(bits),
        IpAddr::V6(bits) => count_leading_ones_128(bits),
    }
}

/// The prefix length of an IPv6 netmask, scanned over all of its 128 bits.
pub fn get_netmask_prefix_ipv6(netmask: IpAddr) -> (prefix: u32)
    requires
        netmask.is_v6(),
    ensures
        prefix == leading_ones_128(netmask->V6_0, 128),
        prefix <= 128,
{
    match netmask {
        IpAddr::V4(_) => 0,
        IpAddr::V6(bits) => count_leading_ones_128(bits),
    }
}

/// The IPv4 netmask with `prefix` leading one-bits.
pub fn netmask_v4(prefix: u8) -> (netmask: IpAddr)
    requires
        prefix <= 32,
    ensures
        netmask == IpAddr::V4(netmask_bits_v4(prefix as u32)),
{
    if prefix == 0 {
        IpAddr::V4(0)
    } else {
        IpAddr::V4(0xffff_ffffu32 << (32 - prefix as u32))
    }
}

/// The IPv6 netmask with `prefix` leading one-bits.
pub fn netmask_v6(prefix: u8) -> (netmask: IpAddr)
    requires
        prefix <= 128,
    ensures
        netmask == IpAddr::V6(netmask_bits_v6(prefix as u128)),
{
    if prefix == 0 {
        IpAddr::V6(0)
    } else {
        IpAddr::V6(0xffff_ffff_ffff_ffff_ffff_ffff_ffff_ffffu128 << (128 - prefix as u128))
    }
}

/// Masking twice with one netmask gives what masking once gives.
pub proof fn lemma_mask_idempotent(ip: IpAddr, netmask: IpAddr)
    requires
        ip.same_family(netmask),
    ensures
        masked(ip, netmask) is Some,
        masked(masked(ip, netmask).unwrap(), netmask) == masked(ip, netmask),
{
    match (ip, netmask) {
        (IpAddr::V4(a), IpAddr::V4(m)) => {
            assert((a & m) & m == a & m) by (bit_vector);
        },
        (IpAddr::V6(a), IpAddr::V6(m)) => {
            assert((a & m) & m == a & m) by (bit_vector);
        },
        _ => {},
    }
}

/// Masking keeps the family of the address.
pub proof fn lemma_mask_keeps_family(ip: IpAddr, netmask: IpAddr)
    requires
        ip.same_family(netmask),
    ensures
        masked(ip, netmask) is Some,
        masked(ip, netmask).unwrap().same_family(ip),
{
}

/// A canonical address is its own canonical form.
pub proof fn lemma_normalize_fixpoint(address: IpAddr)
    ensures
        normalized(normalized(address)) == normalized(address),
{
}

/// A canonical IPv6 address stands for no IPv4 address.
pub proof fn lemma_normalized_v6_is_plain(address: IpAddr)
    ensures
        normalized(address) matches IpAddr::V6(bits) ==> !embeds_v4(bits),
{
}

proof fn lemma_netmask_bit_v4(prefix: u32, i: u32)
    by (bit_vector)
    requires
        1 <= prefix <= 32,
        i < 32,
    ensures
        ((0xffff_ffffu32 << ((32 - prefix) as u32)) >> i) & 1 == 1 <==> i >= 32 - prefix,
{
}

proof fn lemma_netmask_bit_v6(prefix: u128, i: u128)
    by (bit_vector)
    requires
        1 <= prefix <= 128,
        i < 128,
    ensures
        ((0xffff_ffff_ffff_ffff_ffff_ffff_ffff_ffffu128 << ((128 - prefix) as u128)) >> i) & 1 == 1
            <==> i >= 128 - prefix,
{
}

proof fn lemma_netmask_run_v4(prefix: u32, run: nat)
    requires
        prefix <= 32,
        run <= prefix,
    ensures
        leading_ones_32(netmask_bits_v4(prefix), (32 - prefix + run) as nat) == run,
    decreases run,
{
    let bits = netmask_bits_v4(prefix);
    let width = (32 - prefix + run) as nat;
    if prefix == 0 {
        assert((0u32 >> 31u32) & 1 == 0) by (bit_vector);
    } else if run == 0 {
        if width > 0 {
            lemma_netmask_bit_v4(prefix, (width - 1) as u32);
        }
    } else {
        lemma_netmask_bit_v4(prefix, (width - 1) as u32);
        lemma_netmask_run_v4(prefix, (run - 1) as nat);
    }
}

proof fn lemma_netmask_run_v6(prefix: u128, run: nat)
    requires
        prefix <= 128,
        run <= prefix,
    ensures
        leading_ones_128(netmask_bits_v6(prefix), (128 - prefix + run) as nat) == run,
    decreases run,
{
    let width = (128 - prefix + run) as nat;
    if prefix == 0 {
        assert((0u128 >> 127u128) & 1 == 0) by (bit_vector);
    } else if run == 0 {
        if width > 0 {
            lemma_netmask_bit_v6(prefix, (width - 1) as u128);
        }
    } else {
        lemma_netmask_bit_v6(prefix, (width - 1) as u128);
        lemma_netmask_run_v6(prefix, (run - 1) as nat);
    }
}

/// The prefix length of the IPv4 netmask built for a prefix length is that
/// prefix length.
pub proof fn lemma_prefix_round_trip_v4(prefix: u32)
    requires
        prefix <= 32,
    ensures
        prefix_length(IpAddr::V4(netmask_bits_v4(prefix))) == prefix,
{
    lemma_netmask_run_v4(prefix, prefix as nat);
}

/// The prefix length of the IPv6 netmask built for a prefix length is that
/// prefix length.
pub proof fn lemma_prefix_round_trip_v6(prefix: u128)
    requires
        prefix <= 128,
    ensures
        prefix_length(IpAddr::V6(netmask_bits_v6(prefix))) == prefix,
        leading_ones_128(netmask_bits_v6(prefix), 128) == prefix,
{
    lemma_netmask_run_v6(prefix, prefix as nat);
    if prefix == 0 {
        assert(0u128 >> 32 == 0) by (bit_vector);
        assert(0u128 & 0xffff_ffff == 0) by (bit_vector);
        lemma_netmask_run_v4(0, 0);
    } else {
        let bits = netmask_bits_v6(prefix);
        assert(bits >> 32 != 0 && bits >> 32 != 0xffff) by (bit_vector)
            requires
                1 <= prefix <= 128,
                bits == 0xffff_ffff_ffff_ffff_ffff_ffff_ffff_ffffu128 << ((128 - prefix) as u128),
        ;
    }
}

} // verus!
