use arp_scanner::addr::Ipv4Address;
use arp_scanner::subnet::Subnet;

#[test]
fn prefix_over_32_is_no_subnet() {
    assert!(Subnet::new(Ipv4Address::new(10, 0, 0, 1), 33).is_none());
    assert!(Subnet::new(Ipv4Address::new(10, 0, 0, 1), 255).is_none());
    assert!(Subnet::new(Ipv4Address::new(10, 0, 0, 1), 32).is_some());
    assert!(Subnet::new(Ipv4Address::new(10, 0, 0, 1), 0).is_some());
}

#[test]
fn slash_24_has_256_targets() {
    let s = Subnet::new(Ipv4Address::new(192, 168, 1, 77), 24).unwrap();
    assert_eq!(s.addr(), Ipv4Address::new(192, 168, 1, 77));
    assert_eq!(s.prefix(), 24);
    assert_eq!(s.target_count(), 256);
    assert_eq!(s.target_at(0), Some(Ipv4Address::new(192, 168, 1, 0)));
    assert_eq!(s.target_at(77), Some(Ipv4Address::new(192, 168, 1, 77)));
    assert_eq!(s.target_at(255), Some(Ipv4Address::new(192, 168, 1, 255)));
    assert_eq!(s.target_at(256), None);
}

#[test]
fn host_bits_are_masked_off() {
    let s = Subnet::new(Ipv4Address::new(10, 1, 9, 32), 16).unwrap();
    assert_eq!(s.target_count(), 65536);
    assert_eq!(s.target_at(0), Some(Ipv4Address::new(10, 1, 0, 0)));
    assert_eq!(s.target_at(256), Some(Ipv4Address::new(10, 1, 1, 0)));
    assert_eq!(s.target_at(65535), Some(Ipv4Address::new(10, 1, 255, 255)));
    assert_eq!(s.target_at(65536), None);
}

#[test]
fn target_counts_by_prefix() {
    let ip = Ipv4Address::new(172, 16, 5, 9);
    assert_eq!(Subnet::new(ip, 32).unwrap().target_count(), 1);
    assert_eq!(Subnet::new(ip, 31).unwrap().target_count(), 2);
    assert_eq!(Subnet::new(ip, 30).unwrap().target_count(), 4);
    assert_eq!(Subnet::new(ip, 8).unwrap().target_count(), 1 << 24);
    assert_eq!(Subnet::new(ip, 1).unwrap().target_count(), 1 << 31);
    assert_eq!(Subnet::new(ip, 0).unwrap().target_count(), u32::MAX);
}

#[test]
fn single_address_subnet() {
    let s = Subnet::new(Ipv4Address::new(172, 16, 5, 9), 32).unwrap();
    assert_eq!(s.target_at(0), Some(Ipv4Address::new(172, 16, 5, 9)));
    assert_eq!(s.target_at(1), None);
    assert_eq!(s.first_targets(10), vec![Ipv4Address::new(172, 16, 5, 9)]);
}

#[test]
fn whole_address_space() {
    let s = Subnet::new(Ipv4Address::new(172, 16, 5, 9), 0).unwrap();
    assert_eq!(s.target_at(0), Some(Ipv4Address(0)));
    assert_eq!(s.target_at(u32::MAX - 1), Some(Ipv4Address(u32::MAX - 1)));
    assert_eq!(s.target_at(u32::MAX), None);
}

#[test]
fn first_targets_ascend_from_the_network_address() {
    let s = Subnet::new(Ipv4Address::new(192, 168, 1, 6), 30).unwrap();
    let all = vec![
        Ipv4Address::new(192, 168, 1, 4),
        Ipv4Address::new(192, 168, 1, 5),
        Ipv4Address::new(192, 168, 1, 6),
        Ipv4Address::new(192, 168, 1, 7),
    ];
    assert_eq!(s.first_targets(100), all);
    assert_eq!(s.first_targets(4), all);
    assert_eq!(s.first_targets(2), all[..2].to_vec());
    assert_eq!(s.first_targets(0), Vec::<Ipv4Address>::new());
}

#[test]
fn targets_are_exactly_the_subnet() {
    let s = Subnet::new(Ipv4Address::new(10, 20, 30, 200), 27).unwrap();
    let targets = s.first_targets(u32::MAX);
    assert_eq!(targets.len(), 32);
    let mut n: u32 = 0;
    for t in &targets {
        assert_eq!(t.to_bits(), 0x0a14_1ec0 + n);
        assert_eq!(t.to_bits() & 0xffff_ffe0, 0x0a14_1ec0);
        n += 1;
    }
}
