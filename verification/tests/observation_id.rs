use dynamic_sensors::address::IpAddr;
use dynamic_sensors::application::Application;
use dynamic_sensors::handle::Handle;
use dynamic_sensors::interface::Interface;
use dynamic_sensors::network::Network;
use dynamic_sensors::observation_id::ObservationID;
use dynamic_sensors::scan::parse_ip;
use dynamic_sensors::selector::Selector;

#[derive(Debug, PartialEq)]
struct Template {
    example_data_1: [u8; 16],
    example_data_2: [u32; 4],
    example_data_3: String,
}

#[test]
fn test_add_template() {
    // the host keeps its templates; the domain holds a token for each
    let templates = vec![Template {
        example_data_1: [1, 2, 3, 4, 5, 6, 7, 8, 9, 10, 11, 12, 13, 14, 15, 16],
        example_data_2: [10, 20, 30, 50],
        example_data_3: String::from("Hello world"),
    }];

    let mut observation_id = ObservationID::new(1234);
    let raw_data = Handle::new(0);

    observation_id.add_template(42, raw_data);
    let template_ref = observation_id.get_template(42);

    let tmpl = &templates[template_ref.unwrap().get_token()];

    assert_eq!(
        tmpl.example_data_1,
        [1, 2, 3, 4, 5, 6, 7, 8, 9, 10, 11, 12, 13, 14, 15, 16]
    );
    assert_eq!(tmpl.example_data_2, [10, 20, 30, 50]);
    assert_eq!(tmpl.example_data_3, "Hello world");
}

#[test]
fn test_networks() {
    let mut observation_id = ObservationID::new(1234);

    let network = Network::new(
        parse_ip("10.13.30.0").unwrap(),
        parse_ip("255.255.0.0").unwrap(),
        "test-net",
    )
    .unwrap();

    observation_id.add_network(network);

    let should_exists = observation_id.get_network(parse_ip("10.13.30.44").unwrap());
    assert!(should_exists.is_some());
}

#[test]
fn new_domain_is_blank() {
    let domain = ObservationID::new(1234);
    assert_eq!(domain.get_id(), 1234);
    assert_eq!(domain.get_enrichment(), None);
    assert_eq!(domain.get_fallback_first_switch(), None);
    assert!(!domain.want_client_dns());
    assert!(!domain.want_target_dns());
    assert!(!domain.is_exporter_in_wan_side());
    assert!(!domain.is_span_port());
    assert!(!domain.is_ptr_dns_client());
    assert!(!domain.is_ptr_dns_target());
    assert!(domain.list_templates().is_empty());
    assert!(domain.get_template(1).is_none());
    assert!(domain.get_application(1).is_none());
    assert!(domain.get_selector(1).is_none());
    assert!(domain.get_interface(1).is_none());
    assert!(domain.get_network(IpAddr::V4(1)).is_none());
}

#[test]
fn home_network_is_found_and_named() {
    let mut domain = ObservationID::new(1);
    domain.add_network(
        Network::new(IpAddr::V4(0x0a0d_1e00), IpAddr::V4(0xffff_0000), "test-net").unwrap(),
    );
    domain.add_network(
        Network::new(IpAddr::V4(0xc0a8_0100), IpAddr::V4(0xffff_ff00), "lab").unwrap(),
    );
    let found = domain.get_network(IpAddr::V4(0x0a0d_1e2c)).unwrap();
    assert_eq!(found.get_name(), "test-net");
    assert_eq!(found.get_ip(), IpAddr::V4(0x0a0d_0000));
    assert_eq!(found.get_netmask(), IpAddr::V4(0xffff_0000));
    assert_eq!(found.get_ip_str(), "10.13.30.0/16");
    let found = domain.get_network(IpAddr::V4(0xc0a8_01ff)).unwrap();
    assert_eq!(found.get_name(), "lab");
    assert!(domain.get_network(IpAddr::V4(0xc0a8_0200)).is_none());
}

#[test]
fn home_networks_of_the_other_family_never_match() {
    let mut domain = ObservationID::new(1);
    // 0.0.0.0/0 holds every IPv4 address and no IPv6 address
    domain.add_network(Network::new(IpAddr::V4(0), IpAddr::V4(0), "all-v4").unwrap());
    assert!(domain.get_network(IpAddr::V4(0x0102_0304)).is_some());
    assert!(domain.get_network(parse_ip("2001:db8::1").unwrap()).is_none());
    assert!(domain.get_network(parse_ip("::1:0:0:1").unwrap()).is_none());

    let mut domain = ObservationID::new(2);
    // ::/0 holds every IPv6 address and no IPv4 address
    domain.add_network(Network::new(parse_ip("2001:db8::").unwrap(), IpAddr::V6(0), "all-v6").unwrap());
    let found = domain.get_network(parse_ip("2001:db8::1").unwrap()).unwrap();
    assert!(found.get_netmask().is_ipv6());
    assert!(domain.get_network(IpAddr::V4(0x0102_0304)).is_none());
    // an IPv4-mapped query is an IPv4 query
    assert!(domain.get_network(IpAddr::V6(0xffff_0102_0304)).is_none());
}

#[test]
fn truncated_netmask_gives_the_same_key() {
    let address = parse_ip("192.168.1.0").unwrap();
    let plain = Network::new(address, parse_ip("255.255.255.0").unwrap(), "a").unwrap();
    let mapped = Network::new(address, parse_ip("::ffff:ffff:ff00").unwrap(), "b").unwrap();
    assert_eq!(plain.get_ip(), mapped.get_ip());
    assert_eq!(plain.get_netmask(), mapped.get_netmask());
    assert_eq!(mapped.get_ip(), IpAddr::V4(0xc0a8_0100));
    assert_eq!(mapped.get_netmask(), IpAddr::V4(0xffff_ff00));
    assert_eq!(mapped.get_ip_str(), "192.168.1.0/24");

    let mut domain = ObservationID::new(1);
    domain.add_network(plain);
    domain.add_network(mapped);
    let found = domain.get_network(parse_ip("192.168.1.77").unwrap()).unwrap();
    assert_eq!(found.get_name(), "b");
}

#[test]
fn network_of_a_mapped_address_is_ipv4() {
    let network = Network::new(
        parse_ip("::ffff:10.1.2.3").unwrap(),
        parse_ip("ffff:ffff:ffff:ffff:ffff:ffff:ffff:0").unwrap(),
        "mapped",
    )
    .unwrap();
    assert_eq!(network.get_ip(), IpAddr::V4(0x0a01_0000));
    assert_eq!(network.get_netmask(), IpAddr::V4(0xffff_0000));
    assert_eq!(network.get_ip_str(), "10.1.2.3/16");
}

#[test]
fn ipv6_network_text_shows_the_prefix_length() {
    let network = Network::new(
        parse_ip("2001:db8:a0b:12f0::1").unwrap(),
        parse_ip("ffff:ffff:ffff::").unwrap(),
        "v6",
    )
    .unwrap();
    assert_eq!(network.get_ip(), parse_ip("2001:db8:a0b::").unwrap());
    assert_eq!(network.get_ip_str(), "2001:db8:a0b:12f0::1/48");
}

#[test]
fn ipv4_netmask_against_ipv6_address_is_refused() {
    assert!(Network::new(
        parse_ip("2001:db8::1").unwrap(),
        parse_ip("255.255.255.0").unwrap(),
        "bad"
    )
    .is_err());
}

#[test]
fn entities_are_stored_by_identifier() {
    let mut domain = ObservationID::new(1);
    domain.add_application(Application::new(7, b"http".to_vec()));
    domain.add_application(Application::new(7, b"https".to_vec()));
    domain.add_selector(Selector::new(8, b"sel".to_vec()));
    domain.add_interface(Interface::new(9, b"eth0".to_vec(), b"uplink".to_vec()));
    let application = domain.get_application(7).unwrap();
    assert_eq!(application.get_id(), 7);
    assert_eq!(application.get_name(), b"https");
    let selector = domain.get_selector(8).unwrap();
    assert_eq!(selector.get_id(), 8);
    assert_eq!(selector.get_name(), b"sel");
    let interface = domain.get_interface(9).unwrap();
    assert_eq!(interface.get_id(), 9);
    assert_eq!(interface.get_name(), b"eth0");
    assert_eq!(interface.get_description(), b"uplink");
    assert!(domain.get_application(8).is_none());
    assert!(domain.get_selector(9).is_none());
    assert!(domain.get_interface(7).is_none());
}

#[test]
fn templates_are_listed_once_each() {
    let mut domain = ObservationID::new(1);
    domain.add_template(42, Handle::new(1));
    domain.add_template(7, Handle::new(2));
    domain.add_template(42, Handle::new(3));
    let mut ids = domain.list_templates();
    ids.sort();
    assert_eq!(ids, vec![7, 42]);
    assert_eq!(domain.get_template(42), Some(&Handle::new(3)));
    assert_eq!(domain.get_template(7), Some(&Handle::new(2)));
    assert_eq!(domain.get_template(8), None);
}

#[test]
fn enrichment_is_kept_as_given() {
    let mut domain = ObservationID::new(1);
    domain.set_enrichment(b"\"a\":1\0");
    assert_eq!(domain.get_enrichment(), Some(&b"\"a\":1\0"[..]));
    domain.set_enrichment(b"");
    assert_eq!(domain.get_enrichment(), Some(&b""[..]));
}

#[test]
fn flags_are_switched_on_one_by_one() {
    let mut domain = ObservationID::new(1);
    domain.set_span_mode();
    assert!(domain.is_span_port());
    assert!(!domain.is_exporter_in_wan_side());
    domain.set_exporter_in_wan_side();
    assert!(domain.is_exporter_in_wan_side());
    domain.enable_ptr_dns_client();
    assert!(domain.is_ptr_dns_client());
    assert!(!domain.is_ptr_dns_target());
    domain.enable_ptr_dns_target();
    assert!(domain.is_ptr_dns_target());
    // switching on again changes nothing
    domain.set_span_mode();
    assert!(domain.is_span_port());
    domain.set_fallback_first_switch(-3);
    assert_eq!(domain.get_fallback_first_switch(), Some(-3));
    assert_eq!(domain.get_id(), 1);
}
