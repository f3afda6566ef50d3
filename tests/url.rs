use keylight::model::DeviceAddress;
use keylight::url::{address_text, gen_url};

#[test]
fn url_of_example_device() {
    assert_eq!(gen_url(DeviceAddress::new(10, 0, 0, 5)), "http://10.0.0.5:9123/elgato/lights");
}

#[test]
fn url_with_three_digit_octets() {
    assert_eq!(gen_url(DeviceAddress::new(192, 168, 1, 100)), "http://192.168.1.100:9123/elgato/lights");
}

#[test]
fn address_text_edges() {
    assert_eq!(address_text(DeviceAddress::new(0, 0, 0, 0)), "0.0.0.0");
    assert_eq!(address_text(DeviceAddress::new(255, 255, 255, 255)), "255.255.255.255");
    assert_eq!(address_text(DeviceAddress::new(9, 10, 99, 200)), "9.10.99.200");
}
