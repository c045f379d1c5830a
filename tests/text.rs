use backpack::{bind_address, decimal_string, print_address};

#[test]
fn decimal_of_numbers() {
    assert_eq!(decimal_string(0), "0");
    assert_eq!(decimal_string(7), "7");
    assert_eq!(decimal_string(3000), "3000");
    assert_eq!(decimal_string(u64::MAX), "18446744073709551615");
}

#[test]
fn address_on_every_interface_shows_port_only() {
    assert_eq!(print_address("0.0.0.0", 3000), "\x1b[32m:3000\x1b[0m");
    assert_eq!(print_address("::", 8080), "\x1b[32m:8080\x1b[0m");
}

#[test]
fn address_on_one_interface_shows_ip_and_port() {
    assert_eq!(print_address("127.0.0.1", 3000), "\x1b[32m127.0.0.1:3000\x1b[0m");
    assert_eq!(print_address("::1", 65535), "\x1b[32m::1:65535\x1b[0m");
}

#[test]
fn bind_address_joins_host_and_port() {
    assert_eq!(bind_address("0.0.0.0", 3000), "0.0.0.0:3000");
    assert_eq!(bind_address("localhost", 80), "localhost:80");
}
