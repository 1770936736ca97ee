use dynamic_sensors::address::IpAddr;
use dynamic_sensors::database::SensorsDB;
use dynamic_sensors::handle::Handle;
use dynamic_sensors::scan::parse_ip;
use dynamic_sensors::sensor::Sensor;

#[test]
fn test_add_sensors() {
    let ip_1 = IpAddr::V4(3232235901); // Added to DB
    let ip_2 = IpAddr::V4(3232236132); // Added to DB
    let ip_3 = IpAddr::V4(3232236133); // Not added to DB
    let ip_4 = IpAddr::V4(3232236389); // Not added to DB

    let nm = IpAddr::V4(0xFFFFFF00);

    let sensor_1 = Sensor::new(ip_1, nm).unwrap();
    let sensor_2 = Sensor::new(ip_2, nm).unwrap();

    let mut database = SensorsDB::new();

    database.add_sensor(sensor_1);
    database.add_sensor(sensor_2);

    // Sensors with ip_1 and ip_2 should exists on DB
    assert!(database.get_sensor(ip_1).is_some());
    assert!(database.get_sensor(ip_2).is_some());

    // Sensors with ip_3 is in he same network as ip_2
    assert!(database.get_sensor(ip_3).is_some());

    // Sensor with ip_4 is not known
    assert!(database.get_sensor(ip_4).is_none());
}

#[test]
fn mod_test_add_sensors() {
    let ip_1 = parse_ip("192.168.1.135").expect("Error parsing IP");
    let ip_2 = parse_ip("2001:db8:a0b:12f0::1").expect("Error parsing IP");
    let ip_3 = parse_ip("192.168.1.200").expect("Error parsing IP");
    let ip_4 = parse_ip("2001:db8:a0b:12f0::15").expect("Error parsing IP");
    let ip_5 = parse_ip("192.168.15.1").expect("Error parsing IP");
    let ip_6 = parse_ip("2001:ff8:a0b:12f0::15").expect("Error parsing IP");

    let netmask_1 = parse_ip("255.255.255.0").expect("Error parsing netmask");
    let netmask_2 = parse_ip("FFFF:FFFF::").expect("Error parsing netmask");

    let sensor_1 = Sensor::new(ip_1, netmask_1).unwrap();
    let sensor_2 = Sensor::new(ip_2, netmask_2).unwrap();

    let mut database = SensorsDB::new();

    database.add_sensor(sensor_1);
    database.add_sensor(sensor_2);

    // ip_1 and ip_3 belongs to the same network and ip_v5 does not
    assert!(database.get_sensor_mut(ip_1).is_some());
    assert!(database.get_sensor_mut(ip_3).is_some());
    assert!(database.get_sensor_mut(ip_5).is_none());

    // ip_2 and ip_4 belongs to the same network and ip_v6 does not
    assert!(database.get_sensor_mut(ip_2).is_some());
    assert!(database.get_sensor_mut(ip_4).is_some());
    assert!(database.get_sensor_mut(ip_6).is_none());
}

#[test]
fn empty_database_resolves_nothing() {
    let mut database = SensorsDB::new();
    assert!(database.get_sensor(IpAddr::V4(1)).is_none());
    assert!(database.get_sensor_mut(IpAddr::V6(1)).is_none());
    assert!(database.list_sensors().is_empty());
}

#[test]
fn stored_sensor_is_found_from_inside_its_network() {
    let mut database = SensorsDB::new();
    database.add_sensor(Sensor::new(IpAddr::V4(0x0a00_0001), IpAddr::V4(0xff00_0000)).unwrap());
    database.add_sensor(Sensor::new(IpAddr::V4(0xc0a8_0101), IpAddr::V4(0xffff_0000)).unwrap());
    for query in [0x0a00_0000u32, 0x0a01_0203, 0x0aff_ffff] {
        let found = database.get_sensor(IpAddr::V4(query)).expect("not found");
        assert_eq!(found.get_network(), IpAddr::V4(0x0a00_0000));
        assert_eq!(found.get_netmask(), IpAddr::V4(0xff00_0000));
    }
    for query in [0xc0a8_0000u32, 0xc0a8_ffff] {
        let found = database.get_sensor(IpAddr::V4(query)).expect("not found");
        assert_eq!(found.get_network(), IpAddr::V4(0xc0a8_0000));
    }
    assert!(database.get_sensor(IpAddr::V4(0x0b00_0000)).is_none());
    assert!(database.get_sensor(IpAddr::V4(0xc0a9_0000)).is_none());
}

#[test]
fn query_is_made_canonical_before_lookup() {
    let mut database = SensorsDB::new();
    database.add_sensor(Sensor::new(IpAddr::V4(0xc0a8_0101), IpAddr::V4(0xffff_ff00)).unwrap());
    // ::ffff:192.168.1.7 and ::192.168.1.7
    assert!(database.get_sensor(IpAddr::V6(0xffff_c0a8_0107)).is_some());
    assert!(database.get_sensor(IpAddr::V6(0xc0a8_0107)).is_some());
    assert!(database.get_sensor(IpAddr::V6(0xffff_c0a8_0207)).is_none());
}

#[test]
fn sensor_of_other_family_is_passed_over() {
    let mut database = SensorsDB::new();
    database.add_sensor(
        Sensor::new(parse_ip("2001:db8::1").unwrap(), parse_ip("ffff:ffff::").unwrap()).unwrap(),
    );
    assert!(database.get_sensor(IpAddr::V4(0x2001_0db8)).is_none());
    assert!(database.get_sensor(parse_ip("2001:db8:1::").unwrap()).is_some());
}

#[test]
fn later_sensor_replaces_one_with_the_same_network() {
    let mut database = SensorsDB::new();
    let mut first = Sensor::new(IpAddr::V4(0xc0a8_0101), IpAddr::V4(0xffff_ff00)).unwrap();
    first.set_worker(Handle::new(1));
    let mut second = Sensor::new(IpAddr::V4(0xc0a8_01fe), IpAddr::V4(0xffff_ff00)).unwrap();
    second.set_worker(Handle::new(2));
    database.add_sensor(first);
    database.add_sensor(second);
    assert_eq!(database.list_sensors().len(), 1);
    let found = database.get_sensor(IpAddr::V4(0xc0a8_0105)).unwrap();
    assert_eq!(found.get_worker(), Some(Handle::new(2)));
}

#[test]
fn list_holds_every_sensor_once() {
    let mut database = SensorsDB::new();
    database.add_sensor(Sensor::new(IpAddr::V4(0x0a00_0001), IpAddr::V4(0xff00_0000)).unwrap());
    database.add_sensor(Sensor::new(IpAddr::V4(0xc0a8_0101), IpAddr::V4(0xffff_0000)).unwrap());
    database.add_sensor(
        Sensor::new(parse_ip("2001:db8::1").unwrap(), parse_ip("ffff:ffff::").unwrap()).unwrap(),
    );
    let mut networks: Vec<String> = database
        .list_sensors()
        .iter()
        .map(|sensor| sensor.get_network_string().to_owned())
        .collect();
    networks.sort();
    assert_eq!(networks, vec!["10.0.0.0", "192.168.0.0", "2001:db8::"]);
}

#[test]
fn found_sensor_is_written_in_place() {
    let mut database = SensorsDB::new();
    database.add_sensor(Sensor::new(IpAddr::V4(0xc0a8_0101), IpAddr::V4(0xffff_ff00)).unwrap());
    database
        .get_sensor_mut(IpAddr::V4(0xc0a8_0164))
        .unwrap()
        .set_worker(Handle::new(99));
    assert_eq!(
        database.get_sensor(IpAddr::V4(0xc0a8_0101)).unwrap().get_worker(),
        Some(Handle::new(99))
    );
}

#[test]
fn add_sensors_stores_in_order() {
    let mut database = SensorsDB::new();
    let mut first = Sensor::new(IpAddr::V4(0xc0a8_0101), IpAddr::V4(0xffff_ff00)).unwrap();
    first.set_worker(Handle::new(1));
    let mut second = Sensor::new(IpAddr::V4(0xc0a8_0102), IpAddr::V4(0xffff_ff00)).unwrap();
    second.set_worker(Handle::new(2));
    let third = Sensor::new(IpAddr::V4(0x0a00_0001), IpAddr::V4(0xff00_0000)).unwrap();
    database.add_sensors(vec![first, second, third]);
    assert_eq!(database.list_sensors().len(), 2);
    assert_eq!(
        database.get_sensor(IpAddr::V4(0xc0a8_0101)).unwrap().get_worker(),
        Some(Handle::new(2))
    );
}
