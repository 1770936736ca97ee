use dynamic_sensors::address::{AddressError, IpAddr};
use dynamic_sensors::handle::Handle;
use dynamic_sensors::observation_id::ObservationID;
use dynamic_sensors::scan::parse_ip;
use dynamic_sensors::sensor::Sensor;

#[test]
fn create_sensor_with_ipv4() {
    let ip = IpAddr::V4(3232235901);
    let netmask = IpAddr::V4(0xFFFFFF00);

    let sensor = Sensor::new(ip, netmask).expect("IP versions does not match");
    let network = sensor.get_network();

    assert!(network.is_ipv4());
    assert_eq!("192.168.1.0", network.to_string());
}

#[test]
fn create_sensor_with_ipv6() {
    let ip = parse_ip("2001:db8:a0b:12f0::1").expect("Error parsing IP");
    let netmask = parse_ip("FFFF:FFFF::").expect("Error parsing netmask");

    let sensor = Sensor::new(ip, netmask).expect("IP versions does not match");
    let network = sensor.get_network();

    assert!(network.is_ipv6());
    assert_eq!("2001:db8::", network.to_string());
}

#[test]
fn sensor_keeps_the_text_of_its_network() {
    let sensor = Sensor::new(IpAddr::V4(3232235901), IpAddr::V4(0xFFFFFF00)).unwrap();
    assert_eq!(sensor.get_network_string(), "192.168.1.0");
    assert_eq!(sensor.get_netmask(), IpAddr::V4(0xFFFFFF00));
}

#[test]
fn sensor_normalizes_address_and_netmask() {
    // ::ffff:192.168.1.125 under ::ffff:255.255.255.0
    let address = IpAddr::V6(0xffff_c0a8_017d);
    let netmask = IpAddr::V6(0xffff_ffff_ff00);
    let sensor = Sensor::new(address, netmask).unwrap();
    assert_eq!(sensor.get_network(), IpAddr::V4(0xc0a8_0100));
    assert_eq!(sensor.get_netmask(), IpAddr::V4(0xffff_ff00));
}

#[test]
fn sensor_refuses_mixed_families() {
    let address = IpAddr::V4(0x0a00_0001);
    let netmask = parse_ip("ffff:ffff::").unwrap();
    match Sensor::new(address, netmask) {
        Err(e) => assert_eq!(e, AddressError::FamilyMismatch),
        Ok(_) => panic!("a netmask of the other family was accepted"),
    }
    let address = parse_ip("2001:db8::1").unwrap();
    let netmask = IpAddr::V4(0xffff_ff00);
    assert!(Sensor::new(address, netmask).is_err());
}

fn sample_sensor() -> Sensor {
    Sensor::new(IpAddr::V4(3232235901), IpAddr::V4(0xFFFFFF00)).unwrap()
}

#[test]
fn add_observation_ids() {
    let mut sensor = sample_sensor();

    let observation_id_1 = ObservationID::new(0);
    let observation_id_2 = ObservationID::new(123);

    sensor.add_default_observation_id(observation_id_1);
    sensor.add_observation_id(observation_id_2);

    assert_eq!(sensor.get_observation_id(0).unwrap().get_id(), 0);
    assert_eq!(sensor.get_observation_id(123).unwrap().get_id(), 123);
    assert_eq!(sensor.get_observation_id(456).unwrap().get_id(), 0);
}

#[test]
fn default_domain_answers_for_every_identifier() {
    let mut sensor = sample_sensor();
    let mut domain = ObservationID::new(0);
    domain.set_fallback_first_switch(7);
    sensor.add_observation_id(domain);
    for id in [0u32, 1, 2, 65535, u32::MAX] {
        let found = sensor.get_observation_id(id).expect("no domain");
        assert_eq!(found.get_id(), 0);
        assert_eq!(found.get_fallback_first_switch(), Some(7));
    }
}

#[test]
fn sensor_without_domains_resolves_nothing() {
    let mut sensor = sample_sensor();
    assert!(sensor.get_observation_id(0).is_none());
    assert!(sensor.get_observation_id(9).is_none());
    assert!(sensor.list_observation_ids().is_empty());
}

#[test]
fn identifier_zero_goes_to_the_default_slot() {
    let mut sensor = sample_sensor();
    sensor.add_observation_id(ObservationID::new(0));
    sensor.add_observation_id(ObservationID::new(5));
    sensor.add_observation_id(ObservationID::new(9));
    let mut ids = sensor.list_observation_ids();
    // the default domain's identifier comes last
    assert_eq!(ids.pop(), Some(0));
    ids.sort();
    assert_eq!(ids, vec![5, 9]);
}

#[test]
fn later_domain_replaces_earlier_one() {
    let mut sensor = sample_sensor();
    let mut first = ObservationID::new(5);
    first.set_fallback_first_switch(1);
    let mut second = ObservationID::new(5);
    second.set_fallback_first_switch(2);
    sensor.add_observation_id(first);
    sensor.add_observation_id(second);
    assert_eq!(sensor.list_observation_ids(), vec![5]);
    assert_eq!(
        sensor.get_observation_id(5).unwrap().get_fallback_first_switch(),
        Some(2)
    );
}

#[test]
fn domain_is_written_in_place() {
    let mut sensor = sample_sensor();
    sensor.add_observation_id(ObservationID::new(5));
    sensor.add_default_observation_id(ObservationID::new(0));
    sensor
        .get_observation_id(5)
        .unwrap()
        .add_template(42, Handle::new(1000));
    sensor.get_observation_id(77).unwrap().set_span_mode();
    let stored = sensor.get_observation_id(5).unwrap();
    assert_eq!(stored.get_template(42), Some(&Handle::new(1000)));
    assert!(!stored.is_span_port());
    let default = sensor.get_observation_id(0).unwrap();
    assert!(default.is_span_port());
    assert_eq!(default.get_template(42), None);
}

#[test]
fn worker_is_absent_until_set() {
    let mut sensor = sample_sensor();
    assert_eq!(sensor.get_worker(), None);
    sensor.set_worker(Handle::new(0xdead));
    assert_eq!(sensor.get_worker(), Some(Handle::new(0xdead)));
    assert_eq!(sensor.get_worker().unwrap().get_token(), 0xdead);
    sensor.set_worker(Handle::new(1));
    assert_eq!(sensor.get_worker(), Some(Handle::new(1)));
}

#[test]
fn domain_is_resolved_for_reading() {
    let mut sensor = sample_sensor();
    assert!(sensor.resolve_observation_id(5).is_none());
    sensor.add_observation_id(ObservationID::new(5));
    assert_eq!(sensor.resolve_observation_id(5).unwrap().get_id(), 5);
    assert!(sensor.resolve_observation_id(6).is_none());
    sensor.add_observation_id(ObservationID::new(0));
    assert_eq!(sensor.resolve_observation_id(6).unwrap().get_id(), 0);
    assert_eq!(sensor.resolve_observation_id(5).unwrap().get_id(), 5);
}
