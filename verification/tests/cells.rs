use mqtt_panel::cells::{
    BrokerEndpointState, NetworkAddressState, IP_ADDR_CAPACITY, MQTT_ADDR_CAPACITY,
    MQTT_PORT_CAPACITY,
};
use mqtt_panel::mqtt::EndpointUpdate;
use mqtt_panel::net::{cidr_to_text, dotted_text, parse_ipv4_text, Ipv4Address, Ipv4Cidr};
use mqtt_panel::text::{chars_of, decimal_text, field_end, parse_number_in, same_text};

#[test]
fn capacities_have_their_values() {
    assert_eq!(IP_ADDR_CAPACITY, 21);
    assert_eq!(MQTT_ADDR_CAPACITY, 18);
    assert_eq!(MQTT_PORT_CAPACITY, 5);
}

#[test]
fn address_cell_starts_empty() {
    let cell = NetworkAddressState::new();
    assert_eq!(cell.read_ip_addr(), None);
}

#[test]
fn address_is_kept_as_text_with_prefix_length() {
    let mut cell = NetworkAddressState::new();
    cell.write_ip_addr(Some(Ipv4Cidr::new(Ipv4Address::new(192, 168, 1, 77), 24)));
    assert_eq!(cell.read_ip_addr(), Some("192.168.1.77/24".to_string()));
    cell.write_ip_addr(Some(Ipv4Cidr::new(Ipv4Address::new(255, 255, 255, 255), 32)));
    assert_eq!(cell.read_ip_addr(), Some("255.255.255.255/32".to_string()));
    cell.write_ip_addr(Some(Ipv4Cidr::new(Ipv4Address::new(10, 0, 0, 1), 8)));
    assert_eq!(cell.read_ip_addr(), Some("10.0.0.1/8".to_string()));
}

#[test]
fn reading_the_address_leaves_it_in_the_cell() {
    let mut cell = NetworkAddressState::new();
    cell.write_ip_addr(Some(Ipv4Cidr::new(Ipv4Address::new(10, 0, 0, 1), 8)));
    assert_eq!(cell.read_ip_addr(), Some("10.0.0.1/8".to_string()));
    assert_eq!(cell.read_ip_addr(), Some("10.0.0.1/8".to_string()));
    cell.write_ip_addr(None);
    assert_eq!(cell.read_ip_addr(), None);
}

#[test]
fn endpoint_is_kept_as_two_texts() {
    let mut cell = BrokerEndpointState::new();
    assert_eq!(cell.read_mqtt_addr(), None);
    assert!(cell.write_mqtt_addr(Some((Ipv4Address::new(192, 168, 1, 2), 1883))));
    assert_eq!(cell.read_mqtt_addr(), Some(("192.168.1.2".to_string(), "1883".to_string())));
    assert_eq!(cell.read_mqtt_addr(), Some(("192.168.1.2".to_string(), "1883".to_string())));
    assert!(!cell.write_mqtt_addr(None));
    assert_eq!(cell.read_mqtt_addr(), None);
}

#[test]
fn port_is_kept_whole_whatever_its_length() {
    let mut cell = BrokerEndpointState::new();
    for port in [0u16, 7, 80, 443, 1883, 9999, 10000, 18830, 65535] {
        cell.write_mqtt_addr(Some((Ipv4Address::new(10, 0, 0, 2), port)));
        assert_eq!(cell.read_mqtt_addr(), Some(("10.0.0.2".to_string(), port.to_string())));
    }
    cell.write_mqtt_addr(Some((Ipv4Address::new(10, 0, 0, 2), 18830)));
    assert_eq!(cell.read_mqtt_addr(), Some(("10.0.0.2".to_string(), "18830".to_string())));
    cell.write_mqtt_addr(Some((Ipv4Address::new(255, 255, 255, 255), 65535)));
    assert_eq!(cell.read_mqtt_addr(), Some(("255.255.255.255".to_string(), "65535".to_string())));
}

#[test]
fn endpoint_updates_are_carried_out() {
    let mut cell = BrokerEndpointState::new();
    assert_eq!(cell.apply(EndpointUpdate::Keep), None);
    assert_eq!(cell.read_mqtt_addr(), None);
    let broker = (Ipv4Address::new(192, 168, 1, 2), 1883);
    assert_eq!(cell.apply(EndpointUpdate::Announce(broker)), Some(true));
    assert_eq!(cell.read_mqtt_addr(), Some(("192.168.1.2".to_string(), "1883".to_string())));
    assert_eq!(cell.apply(EndpointUpdate::Keep), None);
    assert_eq!(cell.read_mqtt_addr(), Some(("192.168.1.2".to_string(), "1883".to_string())));
    assert_eq!(cell.apply(EndpointUpdate::Withdraw), Some(false));
    assert_eq!(cell.read_mqtt_addr(), None);
}

#[test]
fn numbers_are_written_in_decimal() {
    assert_eq!(decimal_text(0), "0");
    assert_eq!(decimal_text(7), "7");
    assert_eq!(decimal_text(10), "10");
    assert_eq!(decimal_text(1883), "1883");
    assert_eq!(decimal_text(65535), "65535");
    for n in [0u16, 9, 10, 99, 100, 255, 999, 1000, 9999, 10000, 65535] {
        assert_eq!(decimal_text(n), n.to_string());
    }
}

#[test]
fn numbers_are_read_from_a_range_of_characters() {
    let chars = chars_of("ab+123.456");
    assert_eq!(parse_number_in(&chars, 2, 6, 255), Some(123));
    assert_eq!(parse_number_in(&chars, 3, 6, 255), Some(123));
    assert_eq!(parse_number_in(&chars, 7, 10, 255), None);
    assert_eq!(parse_number_in(&chars, 7, 10, 456), Some(456));
    assert_eq!(parse_number_in(&chars, 2, 3, 255), None);
    assert_eq!(parse_number_in(&chars, 4, 4, 255), None);
    assert_eq!(parse_number_in(&chars, 0, 6, 65535), None);
    assert_eq!(parse_number_in(&chars, 3, 10, 65535), None);
}

#[test]
fn fields_end_at_the_separator() {
    let chars = chars_of("12.345..6");
    assert_eq!(field_end(&chars, 0, '.'), 2);
    assert_eq!(field_end(&chars, 3, '.'), 6);
    assert_eq!(field_end(&chars, 7, '.'), 7);
    assert_eq!(field_end(&chars, 8, '.'), 9);
    assert_eq!(field_end(&chars, 9, '.'), 9);
}

#[test]
fn texts_are_compared_character_by_character() {
    assert!(same_text("", ""));
    assert!(same_text("indicator/color", "indicator/color"));
    assert!(!same_text("indicator/color", "indicator/colos"));
    assert!(!same_text("indicator/color", "indicator/colo"));
    assert!(!same_text("a", ""));
    assert_eq!(chars_of("a\u{e9}z"), vec!['a', '\u{e9}', 'z']);
}

#[test]
fn addresses_are_written_in_dotted_decimal() {
    assert_eq!(dotted_text(Ipv4Address::new(192, 168, 1, 2)), "192.168.1.2");
    assert_eq!(dotted_text(Ipv4Address::new(0, 0, 0, 0)), "0.0.0.0");
    assert_eq!(cidr_to_text(Ipv4Cidr::new(Ipv4Address::new(172, 16, 254, 1), 12)), "172.16.254.1/12");
    assert_eq!(dotted_text(Ipv4Address::new(10, 20, 30, 40)), "10.20.30.40");
}

#[test]
fn written_address_reads_back() {
    for addr in [
        Ipv4Address::new(0, 0, 0, 0),
        Ipv4Address::new(1, 22, 133, 244),
        Ipv4Address::new(255, 255, 255, 255),
    ] {
        assert_eq!(parse_ipv4_text(&dotted_text(addr)), Some(addr));
    }
    assert_eq!(parse_ipv4_text("1.2.3"), None);
}
