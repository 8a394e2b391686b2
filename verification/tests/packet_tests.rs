use netscan::bytes::{byte_to_2x4bits, bytes_to_hex, read_be16, read_be32};
use netscan::packet::{
    packet_has_fault, packet_parser, parse_arp, parse_ethernet, parse_ipv4, parse_ipv6, parse_tcp,
    parse_tcp_options, parse_udp, EthernetHeader, NetworkLayer, ParseError, TcpOption,
    TransportLayer,
};

const ETH_IPV4: [u8; 14] = [
    0x00, 0x11, 0x22, 0x33, 0x44, 0x55, 0x66, 0x77, 0x88, 0x99, 0xaa, 0xbb, 0x08, 0x00,
];

fn ipv4_header(protocol: u8, total_len: u16) -> Vec<u8> {
    let tl = total_len.to_be_bytes();
    vec![
        0x45, 0x00, tl[0], tl[1], 0x1c, 0x46, 0x40, 0x00, 0x40, protocol, 0xb1, 0xe6, 172, 16, 10,
        99, 172, 16, 10, 12,
    ]
}

fn udp_datagram(payload: &[u8]) -> Vec<u8> {
    let len = (8 + payload.len()) as u16;
    let l = len.to_be_bytes();
    let mut v = vec![0x30, 0x39, 0x00, 0x35, l[0], l[1], 0xab, 0xcd];
    v.extend_from_slice(payload);
    v
}

fn tcp_segment(data_offset: u8, options: &[u8], payload: &[u8]) -> Vec<u8> {
    let mut v = vec![
        0x01, 0xbb, 0xc3, 0x50, 0x00, 0x00, 0x00, 0x01, 0x00, 0x00, 0x00, 0x02,
        data_offset << 4, 0x12, 0xff, 0xff, 0x12, 0x34, 0x00, 0x00,
    ];
    v.extend_from_slice(options);
    v.extend_from_slice(payload);
    v
}

#[test]
fn be_reads_are_network_order() {
    let raw = [0x12, 0x34, 0x56, 0x78];
    assert_eq!(read_be16(&raw, 0), 0x1234);
    assert_eq!(read_be16(&raw, 2), 0x5678);
    assert_eq!(read_be32(&raw, 0), 0x12345678);
}

#[test]
fn nibbles_split_and_recompose() {
    assert_eq!(byte_to_2x4bits(0xAB), [0x0A, 0x0B]);
    assert_eq!(byte_to_2x4bits(0x45), [4, 5]);
    for b in 0..=255u8 {
        let [hi, lo] = byte_to_2x4bits(b);
        assert_eq!(hi * 16 + lo, b);
    }
}

#[test]
fn hex_rendering() {
    assert_eq!(bytes_to_hex(&[0xAA, 0x0B, 0x01], ":"), "AA:0B:01");
    assert_eq!(bytes_to_hex(&[0x00, 0x11, 0x22, 0x33, 0x44, 0x55], ":"), "00:11:22:33:44:55");
    assert_eq!(bytes_to_hex(&[0xde, 0xad], ""), "DEAD");
    assert_eq!(bytes_to_hex(&[], ":"), "");
    assert_eq!(bytes_to_hex(&[0xf0], "--"), "F0");
}

#[test]
fn ethernet_fields_and_rest() {
    let mut raw = ETH_IPV4.to_vec();
    raw.extend_from_slice(&[1, 2, 3]);
    let (h, rest) = match parse_ethernet(&raw) {
        Ok(r) => r,
        Err(_) => panic!("frame should decode"),
    };
    assert_eq!(h.dst_mac, [0x00, 0x11, 0x22, 0x33, 0x44, 0x55]);
    assert_eq!(h.src_mac, [0x66, 0x77, 0x88, 0x99, 0xaa, 0xbb]);
    assert_eq!(h.ether_type, 0x0800);
    assert_eq!(rest, &[1, 2, 3]);
    assert!(matches!(parse_ethernet(&raw[..13]), Err(ParseError::MalformedPacket)));
}

#[test]
fn ether_type_labels() {
    let mk = |t| EthernetHeader { dst_mac: [0; 6], src_mac: [0; 6], ether_type: t };
    assert_eq!(mk(0x0800).ether_type_str(), "IPv4");
    assert_eq!(mk(0x86DD).ether_type_str(), "IPv6");
    assert_eq!(mk(0x0806).ether_type_str(), "ARP");
    assert_eq!(mk(0x1234).ether_type_str(), "Unknown: 0x");
}

#[test]
fn ipv4_fields() {
    let mut raw = ipv4_header(6, 60);
    raw[6] = 0b1110_0001;
    raw[7] = 0x23;
    raw.extend_from_slice(&[9, 9]);
    let (h, rest) = parse_ipv4(&raw).ok().expect("header should decode");
    assert_eq!(h.version, 4);
    assert_eq!(h.ihl, 5);
    assert_eq!(h.dscp, 0);
    assert_eq!(h.ecn, 0);
    assert_eq!(h.total_length, 60);
    assert_eq!(h.identification, 0x1c46);
    assert_eq!(h.reserved, 1);
    assert_eq!(h.dont_fragment, 1);
    assert_eq!(h.more_fragments, 1);
    assert_eq!(h.fragment_offset, 0x0123);
    assert_eq!(h.ttl, 64);
    assert_eq!(h.protocol, 6);
    assert_eq!(h.checksum, 0xb1e6);
    assert_eq!(h.src, [172, 16, 10, 99]);
    assert_eq!(h.dst, [172, 16, 10, 12]);
    assert_eq!(rest, &[9, 9]);
}

#[test]
fn ipv4_dscp_ecn_and_options() {
    let mut raw = ipv4_header(17, 28);
    raw[0] = 0x46;
    raw[1] = 0xb9;
    raw.extend_from_slice(&[1, 1, 1, 1, 7]);
    let (h, rest) = parse_ipv4(&raw).ok().expect("header with options should decode");
    assert_eq!(h.ihl, 6);
    assert_eq!(h.dscp, 0xb9 >> 2);
    assert_eq!(h.ecn, 1);
    assert_eq!(rest, &[7]);
}

#[test]
fn ipv4_rejections() {
    let raw = ipv4_header(6, 20);
    assert!(matches!(parse_ipv4(&raw[..19]), Err(ParseError::MalformedPacket)));
    let mut v6 = raw.clone();
    v6[0] = 0x65;
    assert!(matches!(parse_ipv4(&v6), Err(ParseError::MalformedPacket)));
    let mut short_ihl = raw.clone();
    short_ihl[0] = 0x44;
    assert!(matches!(parse_ipv4(&short_ihl), Err(ParseError::MalformedPacket)));
    let mut long_ihl = raw.clone();
    long_ihl[0] = 0x46;
    assert!(matches!(parse_ipv4(&long_ihl), Err(ParseError::MalformedPacket)));
}

#[test]
fn ipv6_fields() {
    let mut raw = vec![0x6a, 0xbc, 0xde, 0xf1, 0x00, 0x08, 17, 64];
    raw.extend((0u8..16).collect::<Vec<u8>>());
    raw.extend((100u8..116).collect::<Vec<u8>>());
    raw.extend_from_slice(&[5, 6]);
    let (h, rest) = parse_ipv6(&raw).ok().expect("header should decode");
    assert_eq!(h.version, 6);
    assert_eq!(h.traffic_class, 0xab);
    assert_eq!(h.flow_label, 0xcdef1);
    assert_eq!(h.payload_length, 8);
    assert_eq!(h.next_header, 17);
    assert_eq!(h.hop_limit, 64);
    assert_eq!(h.src.to_vec(), (0u8..16).collect::<Vec<u8>>());
    assert_eq!(h.dst.to_vec(), (100u8..116).collect::<Vec<u8>>());
    assert_eq!(rest, &[5, 6]);
    assert!(matches!(parse_ipv6(&raw[..39]), Err(ParseError::MalformedPacket)));
    raw[0] = 0x4a;
    assert!(matches!(parse_ipv6(&raw), Err(ParseError::MalformedPacket)));
}

#[test]
fn udp_payload_follows_length_field() {
    let mut raw = udp_datagram(b"hi!");
    raw.extend_from_slice(b"trailer");
    let (h, payload) = parse_udp(&raw).ok().expect("datagram should decode");
    assert_eq!(h.src_port, 12345);
    assert_eq!(h.dst_port, 53);
    assert_eq!(h.length, 11);
    assert_eq!(h.checksum, 0xabcd);
    assert_eq!(payload, b"hi!");
}

#[test]
fn udp_rejections() {
    let raw = udp_datagram(b"abc");
    assert!(matches!(parse_udp(&raw[..7]), Err(ParseError::MalformedPacket)));
    assert!(matches!(parse_udp(&raw[..10]), Err(ParseError::MalformedPacket)));
    let mut short_len = raw.clone();
    short_len[5] = 7;
    assert!(matches!(parse_udp(&short_len), Err(ParseError::MalformedPacket)));
}

#[test]
fn arp_request() {
    let raw: Vec<u8> = vec![
        0x00, 0x01, 0x08, 0x00, 6, 4, 0x00, 0x01, 1, 2, 3, 4, 5, 6, 192, 168, 0, 1, 0, 0, 0, 0, 0,
        0, 192, 168, 0, 2, 0xee,
    ];
    let (h, rest) = parse_arp(&raw).ok().expect("packet should decode");
    assert_eq!(h.hardware_type, 1);
    assert_eq!(h.protocol_type, 0x0800);
    assert_eq!(h.hardware_len, 6);
    assert_eq!(h.protocol_len, 4);
    assert_eq!(h.operation, 1);
    assert_eq!(h.sender_hardware_addr, vec![1, 2, 3, 4, 5, 6]);
    assert_eq!(h.sender_protocol_addr, vec![192, 168, 0, 1]);
    assert_eq!(h.target_hardware_addr, vec![0; 6]);
    assert_eq!(h.target_protocol_addr, vec![192, 168, 0, 2]);
    assert_eq!(rest, &[0xee]);
    assert!(matches!(parse_arp(&raw[..27]), Err(ParseError::MalformedPacket)));
    assert!(matches!(parse_arp(&raw[..7]), Err(ParseError::MalformedPacket)));
}

#[test]
fn tcp_options_common_set() {
    let raw = [
        0x02, 0x04, 0x05, 0xb4, 0x01, 0x03, 0x03, 0x07, 0x04, 0x02, 0x08, 0x0a, 0, 0, 0, 1, 0, 0, 0,
        2, 0x22, 0x03, 0xaa,
    ];
    let opts = parse_tcp_options(&raw).ok().expect("options should decode");
    assert_eq!(opts.len(), 6);
    assert!(matches!(opts[0], TcpOption::MaximumSegmentSize { value: 1460 }));
    assert!(matches!(opts[1], TcpOption::NoOperation));
    assert!(matches!(opts[2], TcpOption::WindowScale { shift: 7 }));
    assert!(matches!(opts[3], TcpOption::SackPermitted));
    assert!(matches!(opts[4], TcpOption::Timestamp { ts_value: 1, ts_echo: 2 }));
    match &opts[5] {
        TcpOption::Unknown { kind, data } => {
            assert_eq!(*kind, 0x22);
            assert_eq!(data, &vec![0xaa]);
        }
        other => panic!("unexpected option {:?}", other),
    }
}

#[test]
fn tcp_options_end_marker_stops() {
    let opts = parse_tcp_options(&[0x01, 0x00, 0x02, 0x99]).ok().expect("options should decode");
    assert_eq!(opts.len(), 2);
    assert!(matches!(opts[1], TcpOption::End));
    assert_eq!(parse_tcp_options(&[]).ok().expect("empty area").len(), 0);
}

#[test]
fn tcp_options_malformed() {
    for bad in [
        &[0x02][..],
        &[0x02, 0x01][..],
        &[0x02, 0x05, 0, 0][..],
        &[0x02, 0x03, 0x05][..],
        &[0x03, 0x04, 0x01, 0x02][..],
        &[0x08, 0x04, 0, 0][..],
    ] {
        assert!(matches!(parse_tcp_options(bad), Err(ParseError::MalformedPacket)));
    }
}

#[test]
fn tcp_header_fields() {
    let raw = tcp_segment(6, &[0x02, 0x04, 0x05, 0xb4], b"GET");
    let (h, payload) = parse_tcp(&raw).ok().expect("segment should decode");
    assert_eq!(h.src_port, 443);
    assert_eq!(h.dst_port, 50000);
    assert_eq!(h.seq, 1);
    assert_eq!(h.ack, 2);
    assert_eq!(h.data_offset, 6);
    assert!(h.flags.syn && h.flags.ack);
    assert!(!h.flags.fin && !h.flags.rst && !h.flags.psh && !h.flags.urg);
    assert!(!h.flags.ece && !h.flags.cwr);
    assert_eq!(h.window_size, 0xffff);
    assert_eq!(h.checksum, 0x1234);
    assert_eq!(h.urgent_pointer, 0);
    assert_eq!(h.options.len(), 1);
    assert_eq!(payload, b"GET");
}

#[test]
fn tcp_all_flags() {
    let mut raw = tcp_segment(5, &[], &[]);
    raw[13] = 0xff;
    let (h, _) = parse_tcp(&raw).ok().expect("segment should decode");
    let f = h.flags;
    assert!(f.fin && f.syn && f.rst && f.psh && f.ack && f.urg && f.ece && f.cwr);
    raw[13] = 0x81;
    let (h, _) = parse_tcp(&raw).ok().expect("segment should decode");
    assert!(h.flags.fin && h.flags.cwr && !h.flags.syn && !h.flags.ece);
}

#[test]
fn tcp_rejections() {
    let raw = tcp_segment(6, &[0x02, 0x04, 0x05, 0xb4], &[]);
    assert!(matches!(parse_tcp(&raw[..19]), Err(ParseError::MalformedPacket)));
    assert!(matches!(parse_tcp(&raw[..23]), Err(ParseError::MalformedPacket)));
    let bad_opt = tcp_segment(6, &[0x02, 0x05, 0, 0], &[]);
    assert!(matches!(parse_tcp(&bad_opt), Err(ParseError::MalformedPacket)));
}

#[test]
fn frame_ipv4_udp() {
    let udp = udp_datagram(b"payload");
    let mut frame = ETH_IPV4.to_vec();
    frame.extend(ipv4_header(17, 20 + udp.len() as u16));
    frame.extend(&udp);
    assert!(!packet_has_fault(&frame));
    let p = packet_parser(&frame).ok().expect("frame should decode");
    assert_eq!(p.ethernet.ether_type, 0x0800);
    assert!(matches!(p.network, Some(NetworkLayer::IPv4(ref h)) if h.protocol == 17));
    assert!(matches!(p.transport, Some(TransportLayer::Udp(ref u)) if u.dst_port == 53));
    assert_eq!(p.payload, b"payload".to_vec());
}

#[test]
fn frame_ipv4_tcp() {
    let tcp = tcp_segment(5, &[], b"data");
    let mut frame = ETH_IPV4.to_vec();
    frame.extend(ipv4_header(6, 20 + tcp.len() as u16));
    frame.extend(&tcp);
    let p = packet_parser(&frame).ok().expect("frame should decode");
    assert!(matches!(p.transport, Some(TransportLayer::Tcp(ref t)) if t.src_port == 443));
    assert_eq!(p.payload, b"data".to_vec());
}

#[test]
fn frame_ipv4_icmp_and_other_protocols() {
    let mut frame = ETH_IPV4.to_vec();
    frame.extend(ipv4_header(1, 24));
    frame.extend_from_slice(&[8, 0, 0xf7, 0xff]);
    let p = packet_parser(&frame).ok().expect("frame should decode");
    assert!(p.transport.is_none());
    assert!(p.payload.is_empty());

    let mut gre = ETH_IPV4.to_vec();
    gre.extend(ipv4_header(47, 24));
    gre.extend_from_slice(&[1, 2, 3, 4]);
    let p = packet_parser(&gre).ok().expect("frame should decode");
    assert!(p.transport.is_none());
    assert_eq!(p.payload, vec![1, 2, 3, 4]);
}

#[test]
fn frame_ipv6_udp_and_icmpv6() {
    let udp = udp_datagram(b"v6");
    let mut frame = ETH_IPV4.to_vec();
    frame[12] = 0x86;
    frame[13] = 0xdd;
    let mut ip6 = vec![0x60, 0, 0, 0, 0, udp.len() as u8, 17, 64];
    ip6.extend([0u8; 32]);
    frame.extend(&ip6);
    frame.extend(&udp);
    let p = packet_parser(&frame).ok().expect("frame should decode");
    assert!(matches!(p.network, Some(NetworkLayer::IPv6(_))));
    assert!(matches!(p.transport, Some(TransportLayer::Udp(_))));
    assert_eq!(p.payload, b"v6".to_vec());

    let mut icmp = ETH_IPV4.to_vec();
    icmp[12] = 0x86;
    icmp[13] = 0xdd;
    let mut ip6 = vec![0x60, 0, 0, 0, 0, 4, 58, 64];
    ip6.extend([0u8; 32]);
    icmp.extend(&ip6);
    icmp.extend_from_slice(&[128, 0, 0, 0]);
    let p = packet_parser(&icmp).ok().expect("frame should decode");
    assert!(p.transport.is_none());
    assert!(p.payload.is_empty());
}

#[test]
fn frame_arp_and_unknown() {
    let mut frame = ETH_IPV4.to_vec();
    frame[13] = 0x06;
    frame.extend_from_slice(&[
        0x00, 0x01, 0x08, 0x00, 6, 4, 0x00, 0x02, 1, 2, 3, 4, 5, 6, 10, 0, 0, 1, 6, 5, 4, 3, 2, 1,
        10, 0, 0, 2, 0, 0,
    ]);
    let p = packet_parser(&frame).ok().expect("frame should decode");
    assert!(matches!(p.network, Some(NetworkLayer::Arp(ref a)) if a.operation == 2));
    assert!(p.transport.is_none());
    assert_eq!(p.payload, vec![0, 0]);

    let mut other = ETH_IPV4.to_vec();
    other[12] = 0x88;
    other[13] = 0xcc;
    other.extend_from_slice(&[7, 7]);
    let p = packet_parser(&other).ok().expect("frame should decode");
    assert!(p.network.is_none() && p.transport.is_none());
    assert_eq!(p.payload, vec![7, 7]);
}

#[test]
fn frame_rejections() {
    assert!(matches!(packet_parser(&[0u8; 10]), Err(ParseError::MalformedPacket)));
    let mut frame = ETH_IPV4.to_vec();
    frame.extend_from_slice(&[0x45, 0, 0]);
    assert!(matches!(packet_parser(&frame), Err(ParseError::MalformedPacket)));
    let mut bad_udp = ETH_IPV4.to_vec();
    bad_udp.extend(ipv4_header(17, 28));
    bad_udp.extend_from_slice(&[0, 1, 0, 2, 0, 40, 0, 0]);
    assert!(matches!(packet_parser(&bad_udp), Err(ParseError::MalformedPacket)));
}

#[test]
fn short_tcp_data_offset_is_a_fault() {
    let tcp = tcp_segment(4, &[], &[]);
    let mut frame = ETH_IPV4.to_vec();
    frame.extend(ipv4_header(6, 40));
    frame.extend(&tcp);
    assert!(packet_has_fault(&frame));
    let ok = tcp_segment(5, &[], &[]);
    let mut frame2 = ETH_IPV4.to_vec();
    frame2.extend(ipv4_header(6, 40));
    frame2.extend(&ok);
    assert!(!packet_has_fault(&frame2));
    assert!(!packet_has_fault(&[0u8; 5]));
}
