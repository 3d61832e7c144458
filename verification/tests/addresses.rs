use rssh_async::address::{is_ipv4_text, MAX_PORT};
use rssh_async::server::SessionInfo;

fn host(ip: &str, port: usize) -> SessionInfo {
    SessionInfo {
        hostname: "host1".to_string(),
        ip: ip.to_string(),
        port,
        user: "cx".to_string(),
        password: "pw".to_string(),
        groupname: "web".to_string(),
    }
}

#[test]
fn four_numbers_up_to_255_write_an_address() {
    assert!(is_ipv4_text("10.0.0.1"));
    assert!(is_ipv4_text("0.0.0.0"));
    assert!(is_ipv4_text("255.255.255.255"));
    assert!(is_ipv4_text("192.168.0.9"));
    assert!(is_ipv4_text("1.22.133.4"));
}

#[test]
fn other_texts_write_no_address() {
    for text in [
        "", ".", "...", "example.com", "10.0.0", "10.0.0.1.2", "10.0.0.", ".10.0.0.1",
        "10..0.1", "256.0.0.1", "10.0.0.256", "1000.0.0.1", "01.0.0.1", "10.00.0.1",
        "10.0.0.1 ", " 10.0.0.1", "10.0.0.-1", "10.0.0.+1", "a.b.c.d", "10.0.0.1:22",
        "[::1]", "::1", "１.2.3.4", "10,0,0,1", "999.999.999.999",
    ] {
        assert!(!is_ipv4_text(text), "for {:?}", text);
    }
}

#[test]
fn a_host_with_an_address_and_a_port_has_a_socket_address() {
    assert_eq!(MAX_PORT, 65535);
    assert!(host("10.0.0.1", 22).has_socket_address());
    assert!(host("10.0.0.1", 0).has_socket_address());
    assert!(host("10.0.0.1", 65535).has_socket_address());
    assert_eq!(host("10.0.0.1", 22).to_socket_addrs(), "10.0.0.1:22");
    assert_eq!(host("255.0.0.1", 65535).to_socket_addrs(), "255.0.0.1:65535");
}

#[test]
fn a_host_name_or_a_port_too_high_gives_no_socket_address() {
    assert!(!host("example.com", 22).has_socket_address());
    assert!(!host("10.0.0.1", 65536).has_socket_address());
    assert!(!host("10.0.0.1", 70000).has_socket_address());
    assert!(!host("", 22).has_socket_address());
    assert!(!host("10.0.0.256", 22).has_socket_address());
}
