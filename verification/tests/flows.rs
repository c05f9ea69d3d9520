use dpist::flows::{extract_flow_key, FlowKey, IpAddr};

fn key(src: u32, dst: u32, sp: u16, dp: u16) -> FlowKey {
    FlowKey {
        src_ip: IpAddr::V4(src),
        dst_ip: IpAddr::V4(dst),
        src_port: sp,
        dst_port: dp,
        protocol: 6,
    }
}

#[test]
fn normalized_orders_endpoints() {
    let k = key(0x0a000002, 0x0a000001, 80, 1234);
    let n = k.normalized();
    assert_eq!(n, key(0x0a000001, 0x0a000002, 1234, 80));
    assert_eq!(n.normalized(), n);
}

#[test]
fn normalized_is_direction_free() {
    let a = key(0x0a000001, 0x0a000002, 5000, 443);
    let b = key(0x0a000002, 0x0a000001, 443, 5000);
    assert_eq!(a.normalized(), b.normalized());
}

#[test]
fn normalized_compares_ports_on_equal_addresses() {
    let k = key(7, 7, 9000, 80);
    assert_eq!(k.normalized(), key(7, 7, 80, 9000));
}

#[test]
fn ipv4_orders_before_ipv6() {
    let k = FlowKey {
        src_ip: IpAddr::V6(1),
        dst_ip: IpAddr::V4(u32::MAX),
        src_port: 1,
        dst_port: 2,
        protocol: 17,
    };
    let n = k.normalized();
    assert_eq!(n.src_ip, IpAddr::V4(u32::MAX));
    assert_eq!(n.dst_ip, IpAddr::V6(1));
}

fn tcp_frame() -> Vec<u8> {
    let mut f = vec![0u8; 14];
    f[12] = 0x08;
    f[13] = 0x00;
    // IPv4 header, 20 bytes, total length 40, protocol TCP.
    f.extend_from_slice(&[
        0x45, 0, 0, 40, 0, 0, 0x40, 0, 64, 6, 0, 0, 192, 168, 0, 2, 192, 168, 0, 1,
    ]);
    // TCP header, 20 bytes: ports 50000 -> 80.
    f.extend_from_slice(&[
        0xc3, 0x50, 0, 80, 0, 0, 0, 1, 0, 0, 0, 0, 0x50, 0x02, 0xff, 0xff, 0, 0, 0, 0,
    ]);
    f
}

#[test]
fn extracts_normalized_tcp_key() {
    let k = extract_flow_key(&tcp_frame()).expect("a TCP/IPv4 frame has a flow key");
    assert_eq!(
        k,
        FlowKey {
            src_ip: IpAddr::V4(0xc0a80001),
            dst_ip: IpAddr::V4(0xc0a80002),
            src_port: 80,
            dst_port: 50000,
            protocol: 6,
        }
    );
}

#[test]
fn no_key_for_short_or_non_ip_frames() {
    assert_eq!(extract_flow_key(&[]), None);
    assert_eq!(extract_flow_key(&[0u8; 10]), None);
    let mut arp = vec![0u8; 60];
    arp[12] = 0x08;
    arp[13] = 0x06;
    assert_eq!(extract_flow_key(&arp), None);
}
