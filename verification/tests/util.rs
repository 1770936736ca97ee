use dynamic_sensors::address::{AddressError, IpAddr};
use dynamic_sensors::prefix::Prefix;
use dynamic_sensors::address_map::AddressMap;
use dynamic_sensors::network::Network;
use dynamic_sensors::util::{
    apply_netmask, get_netmask_prefix_ipv4, get_netmask_prefix_ipv6, ipv4_to_u32, ipv6_to_u128,
    netmask_v4, netmask_v6, normalize_address, normalize_netmask, v6_to_v4,
};

#[test]
fn octets_spell_big_endian_integers() {
    assert_eq!(ipv4_to_u32(&[192, 168, 1, 125]), 3232235901);
    assert_eq!(ipv4_to_u32(&[0, 0, 0, 0]), 0);
    assert_eq!(ipv4_to_u32(&[255, 255, 255, 255]), u32::MAX);
    assert_eq!(ipv4_to_u32(&[1, 2, 3, 4]), 0x0102_0304);
    let mut octets = [0u8; 16];
    octets[0] = 0x20;
    octets[1] = 0x01;
    octets[2] = 0x0d;
    octets[3] = 0xb8;
    octets[15] = 0x01;
    assert_eq!(ipv6_to_u128(&octets), 0x2001_0db8_0000_0000_0000_0000_0000_0001);
    assert_eq!(ipv6_to_u128(&[0xff; 16]), u128::MAX);
    assert_eq!(ipv6_to_u128(&[0; 16]), 0);
}

#[test]
fn addresses_from_octets() {
    assert_eq!(IpAddr::from_v4_octets(&[10, 13, 30, 44]), IpAddr::V4(0x0a0d_1e2c));
    let mut octets = [0u8; 16];
    octets[10] = 0xff;
    octets[11] = 0xff;
    octets[12] = 192;
    octets[13] = 168;
    octets[14] = 1;
    octets[15] = 1;
    assert_eq!(IpAddr::from_v6_octets(&octets), IpAddr::V6(0xffff_c0a8_0101));
    assert_eq!(
        normalize_address(IpAddr::from_v6_octets(&octets)),
        IpAddr::V4(0xc0a8_0101)
    );
}

#[test]
fn normalize_keeps_ipv4_and_plain_ipv6() {
    assert_eq!(normalize_address(IpAddr::V4(7)), IpAddr::V4(7));
    let plain = IpAddr::V6(0x2001_0db8_0000_0000_0000_0000_0000_0001);
    assert_eq!(normalize_address(plain), plain);
    // the upper 80 bits are zero but the next 16 are neither 0 nor ffff
    let near = IpAddr::V6(0xfffe_0102_0304);
    assert_eq!(normalize_address(near), near);
    let high = IpAddr::V6(0x1_0000_0000_0000);
    assert_eq!(normalize_address(high), high);
}

#[test]
fn normalize_turns_embedded_ipv4_into_ipv4() {
    assert_eq!(
        normalize_address(IpAddr::V6(0xffff_c0a8_0101)),
        IpAddr::V4(0xc0a8_0101)
    );
    assert_eq!(normalize_address(IpAddr::V6(0xc0a8_0101)), IpAddr::V4(0xc0a8_0101));
    assert_eq!(normalize_address(IpAddr::V6(1)), IpAddr::V4(1));
    assert_eq!(normalize_address(IpAddr::V6(0)), IpAddr::V4(0));
}

#[test]
fn normalize_is_a_fixpoint() {
    for address in [
        IpAddr::V4(0),
        IpAddr::V4(0xc0a8_0101),
        IpAddr::V6(0),
        IpAddr::V6(0xffff_c0a8_0101),
        IpAddr::V6(0xfffe_c0a8_0101),
        IpAddr::V6(u128::MAX),
        IpAddr::V6(0x2001_0db8 << 96),
    ] {
        let once = normalize_address(address);
        assert_eq!(normalize_address(once), once);
    }
}

#[test]
fn v6_to_v4_keeps_the_low_32_bits() {
    assert_eq!(v6_to_v4(&IpAddr::V4(0xffff_ff00)), IpAddr::V4(0xffff_ff00));
    assert_eq!(v6_to_v4(&IpAddr::V6(0xffff_ffff_ff00)), IpAddr::V4(0xffff_ff00));
    assert_eq!(v6_to_v4(&IpAddr::V6(u128::MAX)), IpAddr::V4(u32::MAX));
    assert_eq!(
        v6_to_v4(&IpAddr::V6(0x2001_0db8_0000_0000_0000_0000_1234_5678)),
        IpAddr::V4(0x1234_5678)
    );
}

#[test]
fn apply_netmask_is_bitwise_and() {
    assert_eq!(
        apply_netmask(&IpAddr::V4(0xc0a8_017d), &IpAddr::V4(0xffff_ff00)),
        Ok(IpAddr::V4(0xc0a8_0100))
    );
    assert_eq!(
        apply_netmask(&IpAddr::V4(0xc0a8_017d), &IpAddr::V4(0x00ff_00ff)),
        Ok(IpAddr::V4(0x00a8_007d))
    );
    assert_eq!(
        apply_netmask(
            &IpAddr::V6(0x2001_0db8_0a0b_12f0_0000_0000_0000_0001),
            &IpAddr::V6(0xffff_ffff << 96)
        ),
        Ok(IpAddr::V6(0x2001_0db8 << 96))
    );
}

#[test]
fn apply_netmask_refuses_mixed_families() {
    assert_eq!(
        apply_netmask(&IpAddr::V4(1), &IpAddr::V6(1)),
        Err(AddressError::FamilyMismatch)
    );
    assert_eq!(
        apply_netmask(&IpAddr::V6(1), &IpAddr::V4(1)),
        Err(AddressError::FamilyMismatch)
    );
}

#[test]
fn masking_twice_is_masking_once() {
    let pairs = [
        (IpAddr::V4(0xc0a8_017d), IpAddr::V4(0xffff_ff00)),
        (IpAddr::V4(0xdead_beef), IpAddr::V4(0x0f0f_0f0f)),
        (IpAddr::V4(u32::MAX), IpAddr::V4(0)),
        (IpAddr::V6(u128::MAX), IpAddr::V6(0xffff << 112)),
        (IpAddr::V6(0x1234_5678_9abc_def0), IpAddr::V6(0xff00_ff00_ff00_ff00)),
    ];
    for (address, netmask) in pairs {
        let once = apply_netmask(&address, &netmask).unwrap();
        assert_eq!(apply_netmask(&once, &netmask), Ok(once));
    }
}

#[test]
fn netmask_of_a_prefix_length() {
    assert_eq!(netmask_v4(0), IpAddr::V4(0));
    assert_eq!(netmask_v4(1), IpAddr::V4(0x8000_0000));
    assert_eq!(netmask_v4(8), IpAddr::V4(0xff00_0000));
    assert_eq!(netmask_v4(24), IpAddr::V4(0xffff_ff00));
    assert_eq!(netmask_v4(31), IpAddr::V4(0xffff_fffe));
    assert_eq!(netmask_v4(32), IpAddr::V4(0xffff_ffff));
    assert_eq!(netmask_v6(0), IpAddr::V6(0));
    assert_eq!(netmask_v6(1), IpAddr::V6(1 << 127));
    assert_eq!(netmask_v6(32), IpAddr::V6(0xffff_ffff << 96));
    assert_eq!(netmask_v6(64), IpAddr::V6(0xffff_ffff_ffff_ffff << 64));
    assert_eq!(netmask_v6(127), IpAddr::V6(u128::MAX - 1));
    assert_eq!(netmask_v6(128), IpAddr::V6(u128::MAX));
}

#[test]
fn prefix_length_round_trip() {
    for prefix in 0..=32u8 {
        assert_eq!(get_netmask_prefix_ipv4(netmask_v4(prefix)), prefix as u32);
    }
    for prefix in 0..=128u8 {
        assert_eq!(get_netmask_prefix_ipv4(netmask_v6(prefix)), prefix as u32);
        assert_eq!(get_netmask_prefix_ipv6(netmask_v6(prefix)), prefix as u32);
    }
}

#[test]
fn prefix_length_counts_leading_ones_only() {
    assert_eq!(get_netmask_prefix_ipv4(IpAddr::V4(0xffff_ff00)), 24);
    assert_eq!(get_netmask_prefix_ipv4(IpAddr::V4(0xff00_ff00)), 8);
    assert_eq!(get_netmask_prefix_ipv4(IpAddr::V4(0x7fff_ffff)), 0);
    assert_eq!(get_netmask_prefix_ipv4(IpAddr::V4(0)), 0);
    // an IPv6 netmask that stands for an IPv4 one is scanned over 32 bits
    assert_eq!(get_netmask_prefix_ipv4(IpAddr::V6(0xffff_ffff_ff00)), 24);
    assert_eq!(get_netmask_prefix_ipv4(IpAddr::V6(0xffff_0000)), 16);
    // any other IPv6 netmask over 128 bits
    assert_eq!(get_netmask_prefix_ipv4(IpAddr::V6(0xffff_ffff << 96)), 32);
    assert_eq!(get_netmask_prefix_ipv4(IpAddr::V6(u128::MAX)), 128);
    assert_eq!(get_netmask_prefix_ipv6(IpAddr::V6(0xffff_ffff_ff00)), 0);
    assert_eq!(get_netmask_prefix_ipv6(IpAddr::V6(0xffff << 112)), 16);
    assert_eq!(get_netmask_prefix_ipv6(IpAddr::V6((0xffff << 112) | 0xffff)), 16);
}

#[test]
fn prefix_masks_its_address() {
    let prefix = Prefix::new(IpAddr::V4(0xc0a8_017d), IpAddr::V4(0xffff_ff00)).unwrap();
    assert_eq!(prefix.get_network(), IpAddr::V4(0xc0a8_0100));
    assert_eq!(prefix.get_netmask(), IpAddr::V4(0xffff_ff00));
    assert_eq!(
        Prefix::new(IpAddr::V4(1), IpAddr::V6(1)).map(|p| p.get_network()),
        Err(AddressError::FamilyMismatch)
    );
}

#[test]
fn family_predicates() {
    assert!(IpAddr::V4(0).is_ipv4());
    assert!(!IpAddr::V4(0).is_ipv6());
    assert!(IpAddr::V6(0).is_ipv6());
    assert!(!IpAddr::V6(0).is_ipv4());
}

#[test]
fn netmask_is_brought_to_the_family_of_its_address() {
    let v4 = IpAddr::V4(0x0a00_0001);
    let v6 = IpAddr::V6(0x2001_0db8 << 96);
    assert_eq!(
        normalize_netmask(IpAddr::V6(0xffff_ffff_ff00), &v4),
        IpAddr::V4(0xffff_ff00)
    );
    assert_eq!(
        normalize_netmask(IpAddr::V4(0xffff_ff00), &v4),
        IpAddr::V4(0xffff_ff00)
    );
    assert_eq!(
        normalize_netmask(IpAddr::V6(0xffff << 112), &v6),
        IpAddr::V6(0xffff << 112)
    );
    // an IPv4 netmask is not widened
    assert_eq!(
        normalize_netmask(IpAddr::V4(0xffff_ff00), &v6),
        IpAddr::V4(0xffff_ff00)
    );
}

#[test]
fn address_map_keeps_the_families_apart() {
    let mut map: AddressMap<Network> = AddressMap::new();
    assert!(map.values().is_empty());
    let v4 = Network::new(IpAddr::V4(0), IpAddr::V4(0), "v4").unwrap();
    let v6 = Network::new(IpAddr::V6(1 << 127), IpAddr::V6(1 << 127), "v6").unwrap();
    map.insert(v4.get_ip(), v4);
    map.insert(v6.get_ip(), v6);
    assert!(map.contains_key(&IpAddr::V4(0)));
    assert!(!map.contains_key(&IpAddr::V6(0)));
    assert_eq!(map.get(&IpAddr::V4(0)).unwrap().get_name(), "v4");
    assert_eq!(map.get(&IpAddr::V6(1 << 127)).unwrap().get_name(), "v6");
    assert!(map.get(&IpAddr::V4(1)).is_none());
    assert!(map.get_mut(&IpAddr::V6(0)).is_none());
    assert!(map.get_mut(&IpAddr::V6(1 << 127)).is_some());
    assert_eq!(map.values().len(), 2);
    assert_eq!(map.resolve(&IpAddr::V4(77)), Some(IpAddr::V4(0)));
    assert_eq!(map.resolve(&IpAddr::V6(u128::MAX)), Some(IpAddr::V6(1 << 127)));
    assert_eq!(map.resolve(&IpAddr::V6(1)), None);
}
