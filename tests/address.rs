use moblink_relay::address::{
    canonicalize, default_bind_address, destination_endpoint, parse_socket_addr, render_ipv4,
    socket_plan, AddrError, InterfaceInfo, IpAddress, SocketAddress, SocketPlan,
};

fn v4(a: u8, b: u8, c: u8, d: u8, port: u16) -> SocketAddress {
    SocketAddress { ip: IpAddress::V4([a, b, c, d]), port }
}

#[test]
fn bare_ip_gets_port_zero() {
    assert_eq!(parse_socket_addr("1.2.3.4"), Ok(v4(1, 2, 3, 4, 0)));
}

#[test]
fn ip_and_port() {
    assert_eq!(parse_socket_addr("1.2.3.4:5"), Ok(v4(1, 2, 3, 4, 5)));
    assert_eq!(parse_socket_addr("255.255.255.255:65535"), Ok(v4(255, 255, 255, 255, 65535)));
    assert_eq!(parse_socket_addr("0.0.0.0"), Ok(v4(0, 0, 0, 0, 0)));
    assert_eq!(parse_socket_addr("10.0.0.1:0080"), Ok(v4(10, 0, 0, 1, 80)));
}

#[test]
fn not_an_ip_is_invalid_input() {
    assert_eq!(parse_socket_addr("not-an-ip"), Err(AddrError::InvalidInput));
}

#[test]
fn malformed_addresses_are_refused() {
    for s in [
        "", "1.2.3", "1.2.3.4.5", "256.1.1.1", "01.2.3.4", "1.2.3.4:", "1.2.3.4:65536",
        "1.2.3.4:x", ":80", "1..2.3", "1.2.3.4 ", "0.0.0.0:0:0",
    ] {
        assert_eq!(parse_socket_addr(s), Err(AddrError::InvalidInput), "{s}");
    }
}

#[test]
fn mapped_ipv6_collapses_to_ipv4() {
    let mapped = IpAddress::V6([0, 0, 0, 0, 0, 0xffff, 0x0102, 0x0304]);
    assert_eq!(canonicalize(mapped), IpAddress::V4([1, 2, 3, 4]));
    assert_eq!(destination_endpoint(mapped, 9999), v4(1, 2, 3, 4, 9999));
}

#[test]
fn other_addresses_stay() {
    let loopback = IpAddress::V6([0, 0, 0, 0, 0, 0, 0, 1]);
    assert_eq!(canonicalize(loopback), loopback);
    let v4addr = IpAddress::V4([127, 0, 0, 1]);
    assert_eq!(canonicalize(v4addr), v4addr);
}

#[test]
fn socket_plan_by_family() {
    assert_eq!(socket_plan(&v4(0, 0, 0, 0, 0)), SocketPlan::BindV4);
    let v6 = SocketAddress { ip: IpAddress::V6([0; 8]), port: 0 };
    assert_eq!(socket_plan(&v6), SocketPlan::DualStackV6);
}

#[test]
fn renders_dotted_decimal() {
    assert_eq!(render_ipv4([192, 168, 1, 20]), "192.168.1.20");
    assert_eq!(render_ipv4([0, 0, 0, 0]), "0.0.0.0");
    assert_eq!(render_ipv4([255, 10, 9, 100]), "255.10.9.100");
}

#[test]
fn default_bind_picks_first_usable_interface() {
    let ifs = vec![
        InterfaceInfo { is_up: true, is_loopback: true, ips: vec![IpAddress::V4([127, 0, 0, 1])] },
        InterfaceInfo { is_up: false, is_loopback: false, ips: vec![IpAddress::V4([10, 0, 0, 2])] },
        InterfaceInfo { is_up: true, is_loopback: false, ips: vec![] },
        InterfaceInfo {
            is_up: true,
            is_loopback: false,
            ips: vec![IpAddress::V6([0xfe80, 0, 0, 0, 0, 0, 0, 1]), IpAddress::V4([192, 168, 0, 7])],
        },
        InterfaceInfo { is_up: true, is_loopback: false, ips: vec![IpAddress::V4([172, 16, 0, 1])] },
    ];
    assert_eq!(default_bind_address(&ifs), Some("192.168.0.7".to_string()));
}

#[test]
fn default_bind_falls_back_without_ipv4() {
    let ifs = vec![InterfaceInfo {
        is_up: true,
        is_loopback: false,
        ips: vec![IpAddress::V6([0xfe80, 0, 0, 0, 0, 0, 0, 1])],
    }];
    assert_eq!(default_bind_address(&ifs), Some("0.0.0.0:0".to_string()));
}

#[test]
fn default_bind_none_without_interfaces() {
    assert_eq!(default_bind_address(&vec![]), None);
}

fn v6(g: [u16; 8], port: u16) -> SocketAddress {
    SocketAddress { ip: IpAddress::V6(g), port }
}

#[test]
fn bare_ipv6_gets_port_zero() {
    assert_eq!(parse_socket_addr("::1"), Ok(v6([0, 0, 0, 0, 0, 0, 0, 1], 0)));
    assert_eq!(parse_socket_addr("::"), Ok(v6([0; 8], 0)));
    assert_eq!(parse_socket_addr("fe80::1"), Ok(v6([0xfe80, 0, 0, 0, 0, 0, 0, 1], 0)));
    assert_eq!(parse_socket_addr("1::"), Ok(v6([1, 0, 0, 0, 0, 0, 0, 0], 0)));
    assert_eq!(
        parse_socket_addr("1:2:3:4:5:6:7:8"),
        Ok(v6([1, 2, 3, 4, 5, 6, 7, 8], 0))
    );
    assert_eq!(
        parse_socket_addr("2001:DB8:0:0:0:0:0:00ff"),
        Ok(v6([0x2001, 0xdb8, 0, 0, 0, 0, 0, 0xff], 0))
    );
}

#[test]
fn bracketed_ipv6_with_port() {
    assert_eq!(parse_socket_addr("[::1]:80"), Ok(v6([0, 0, 0, 0, 0, 0, 0, 1], 80)));
    assert_eq!(
        parse_socket_addr("[1:2:3:4:5:6:7:8]:65535"),
        Ok(v6([1, 2, 3, 4, 5, 6, 7, 8], 65535))
    );
}

#[test]
fn ipv6_with_ipv4_tail() {
    let mapped = [0, 0, 0, 0, 0, 0xffff, 0x0102, 0x0304];
    assert_eq!(parse_socket_addr("::ffff:1.2.3.4"), Ok(v6(mapped, 0)));
    assert_eq!(
        parse_socket_addr("1:2:3:4:5:6:1.2.3.4"),
        Ok(v6([1, 2, 3, 4, 5, 6, 0x0102, 0x0304], 0))
    );
    let parsed = parse_socket_addr("[::ffff:1.2.3.4]:9999").unwrap();
    assert_eq!(destination_endpoint(parsed.ip, parsed.port), v4(1, 2, 3, 4, 9999));
}

#[test]
fn malformed_ipv6_is_refused() {
    for s in [
        ":::", "1::2::3", "12345::", "[::1]", "[::1]:", "[::1]80", "::1]:80", "1:2:3:4:5:6:7:8:9",
        "1:2:3:4:5:6:7", "1:2:3:4:5:6:7:8::", ":1", "1:", "1.2.3.4::", "::g", "1:2:3:4:5:6:7:1.2.3.4",
        "[::1]:65536",
    ] {
        assert_eq!(parse_socket_addr(s), Err(AddrError::InvalidInput), "{s}");
    }
}

#[test]
fn ipv6_bind_address_plans_dual_stack() {
    let addr = parse_socket_addr("::").unwrap();
    assert_eq!(socket_plan(&addr), SocketPlan::DualStackV6);
}
