use nix_weather::net::{narinfo_url, pin_endpoint, AddressFamilyFilter, IpAddress};

fn mixed_addresses() -> Vec<IpAddress> {
    vec![
        IpAddress::V4(151, 101, 194, 137),
        IpAddress::V6(0x2a04, 0x4e42, 0x4b, 0, 0, 0, 0, 0x313),
        IpAddress::V4(151, 101, 2, 137),
        IpAddress::V6(0x2a04, 0x4e42, 0x4c, 0, 0, 0, 0, 0x313),
    ]
}

#[test]
fn only_ipv4_keeps_only_ipv4_in_order() {
    let filtered = AddressFamilyFilter::OnlyIPv4.filter_addresses(&mixed_addresses());
    assert_eq!(
        filtered,
        vec![
            IpAddress::V4(151, 101, 194, 137),
            IpAddress::V4(151, 101, 2, 137),
        ]
    );
}

#[test]
fn only_ipv6_keeps_only_ipv6_in_order() {
    let filtered = AddressFamilyFilter::OnlyIPv6.filter_addresses(&mixed_addresses());
    assert_eq!(
        filtered,
        vec![
            IpAddress::V6(0x2a04, 0x4e42, 0x4b, 0, 0, 0, 0, 0x313),
            IpAddress::V6(0x2a04, 0x4e42, 0x4c, 0, 0, 0, 0, 0x313),
        ]
    );
}

#[test]
fn both_passes_the_set_through_unchanged() {
    let addresses = mixed_addresses();
    let filtered = AddressFamilyFilter::Both.filter_addresses(&addresses);
    assert_eq!(filtered, addresses);
}

#[test]
fn filtering_may_leave_nothing() {
    let only_v6 = vec![IpAddress::V6(0x2a04, 0x4e42, 0x4b, 0, 0, 0, 0, 0x313)];
    let filtered = AddressFamilyFilter::OnlyIPv4.filter_addresses(&only_v6);
    assert!(filtered.is_empty());
}

#[test]
fn the_default_filter_passes_both_families() {
    assert_eq!(AddressFamilyFilter::default(), AddressFamilyFilter::Both);
}

#[test]
fn the_endpoint_pins_the_first_address_on_https() {
    let addresses = mixed_addresses();
    let endpoint = pin_endpoint("cache.nixos.org", &addresses).unwrap();
    assert_eq!(endpoint.host, "cache.nixos.org");
    assert_eq!(endpoint.address, IpAddress::V4(151, 101, 194, 137));
    assert_eq!(endpoint.port, 443);
}

#[test]
fn no_address_means_nothing_to_pin() {
    assert!(pin_endpoint("cache.nixos.org", &Vec::new()).is_none());
}

#[test]
fn the_probe_url_names_the_artifact_narinfo() {
    assert_eq!(
        narinfo_url("cache.nixos.org", "abc123"),
        "https://cache.nixos.org/abc123.narinfo"
    );
    assert_eq!(narinfo_url("example.org", ""), "https://example.org/.narinfo");
}
