use botnet_tracker::action::Action;
use botnet_tracker::addrfmt::ipv4_to_string;
use botnet_tracker::addrfmt::ipv6_to_string;
use botnet_tracker::addrfmt::mac_to_string;
use botnet_tracker::addrfmt::u16_dec_string;
use botnet_tracker::addrfmt::u16_hex_string;
use botnet_tracker::counter::Protocol;
use botnet_tracker::list::List;
use botnet_tracker::simple_interface::Os;
use botnet_tracker::simple_interface::SimpleInterface;
use botnet_tracker::simple_packet::IpVersion;
use botnet_tracker::sniffer::frame_for_raw_ip;
use botnet_tracker::sniffer::Event;
use botnet_tracker::sniffer::Sniffer;

fn wire_sniffer() -> Sniffer {
    Sniffer::new(
        SimpleInterface {
            name: String::from("eth0"),
            ipv4: String::from("192.168.1.50/24"),
            ipv6: String::from("fe80::1/64"),
            mac: String::from("aa:bb:cc:dd:ee:ff"),
        },
        List::new("b", "b"),
        List::new("w", "w"),
        List::new("k", "k"),
        Action::NOTHING,
        Os::Other,
    )
}

fn udp_ipv4_frame(payload: &[u8]) -> Vec<u8> {
    let mut udp: Vec<u8> = Vec::new();
    udp.extend_from_slice(&1234u16.to_be_bytes());
    udp.extend_from_slice(&53u16.to_be_bytes());
    udp.extend_from_slice(&((8 + payload.len()) as u16).to_be_bytes());
    udp.extend_from_slice(&0xbeefu16.to_be_bytes());
    udp.extend_from_slice(payload);

    let mut ip: Vec<u8> = Vec::new();
    ip.push(0x45);
    ip.push(0);
    ip.extend_from_slice(&((20 + udp.len()) as u16).to_be_bytes());
    ip.extend_from_slice(&[0, 0, 0, 0]); // identification, flags, fragment
    ip.push(64); // ttl
    ip.push(17); // udp
    ip.extend_from_slice(&[0, 0]); // header checksum
    ip.extend_from_slice(&[1, 2, 3, 4]);
    ip.extend_from_slice(&[10, 0, 0, 5]);
    ip.extend_from_slice(&udp);

    let mut frame: Vec<u8> = Vec::new();
    frame.extend_from_slice(&[0xff; 6]);
    frame.extend_from_slice(&[0x11, 0x22, 0x33, 0x44, 0x55, 0x66]);
    frame.extend_from_slice(&[0x08, 0x00]);
    frame.extend_from_slice(&ip);
    frame
}

#[test]
fn udp_frame_decodes_to_a_normalized_packet() {
    let mut s = wire_sniffer();
    let frame = udp_ipv4_frame(b"hello");
    let events = s.handle_ethernet_frame_at(&frame, 36_000_000);
    assert_eq!(events.len(), 1);
    match &events[0] {
        Event::Observed { packet, report } => {
            assert_eq!(packet.category, Protocol::Udp);
            assert_eq!(packet.source_address, "1.2.3.4");
            assert_eq!(packet.source_port, 1234);
            assert_eq!(packet.destination_address, "10.0.0.5");
            assert_eq!(packet.destination_port, 53);
            assert_eq!(packet.destination_port_description, "Domain Name System (DNS)");
            assert_eq!(packet.ip_version, IpVersion::V4);
            assert_eq!(packet.checksum, 0xbeef);
            assert_eq!(packet.payload, b"hello");
            assert_eq!(packet.time, 36_000_000);
            assert!(!report.ddos_repeat);
            assert_eq!(report.counted, None);
        },
        other => panic!("unexpected event {:?}", std::mem::discriminant(other)),
    }
    // the destination is now on the scoreboard
    assert!(s.connections.get(&String::from("10.0.0.5")).is_some());
}

#[test]
fn short_ip_packet_is_reported_malformed() {
    let mut s = wire_sniffer();
    let mut frame: Vec<u8> = Vec::new();
    frame.extend_from_slice(&[0; 12]);
    frame.extend_from_slice(&[0x08, 0x00]);
    frame.extend_from_slice(&[0x45, 0, 0]); // three bytes only
    let events = s.handle_ethernet_frame_at(&frame, 0);
    assert_eq!(events.len(), 1);
    assert!(matches!(events[0], Event::Malformed { .. }));
}

#[test]
fn unknown_ethertype_is_reported() {
    let mut s = wire_sniffer();
    let mut frame: Vec<u8> = Vec::new();
    frame.extend_from_slice(&[0xaa; 6]);
    frame.extend_from_slice(&[0x0c, 0x0d, 0x0e, 0x0f, 0x10, 0x11]);
    frame.extend_from_slice(&[0x12, 0x34]);
    frame.extend_from_slice(b"payload");
    let events = s.handle_ethernet_frame_at(&frame, 0);
    assert_eq!(events.len(), 1);
    match &events[0] {
        Event::UnknownEther { source_mac, destination_mac, ethertype, length } => {
            assert_eq!(source_mac, "0c:0d:0e:0f:10:11");
            assert_eq!(destination_mac, "aa:aa:aa:aa:aa:aa");
            assert_eq!(*ethertype, 0x1234);
            assert_eq!(*length, frame.len());
        },
        _ => panic!("expected an unknown-ethertype event"),
    }
}

#[test]
fn arp_packets_are_counted_but_not_checked() {
    let mut s = wire_sniffer();
    let mut arp: Vec<u8> = Vec::new();
    arp.extend_from_slice(&1u16.to_be_bytes()); // ethernet
    arp.extend_from_slice(&0x0800u16.to_be_bytes()); // ipv4
    arp.push(6);
    arp.push(4);
    arp.extend_from_slice(&1u16.to_be_bytes()); // request
    arp.extend_from_slice(&[0x11, 0x22, 0x33, 0x44, 0x55, 0x66]);
    arp.extend_from_slice(&[192, 168, 1, 50]);
    arp.extend_from_slice(&[0, 0, 0, 0, 0, 0]);
    arp.extend_from_slice(&[192, 168, 1, 99]);

    let mut frame: Vec<u8> = Vec::new();
    frame.extend_from_slice(&[0xff; 6]);
    frame.extend_from_slice(&[0x11, 0x22, 0x33, 0x44, 0x55, 0x66]);
    frame.extend_from_slice(&[0x08, 0x06]);
    frame.extend_from_slice(&arp);

    let events = s.handle_ethernet_frame_at(&frame, 0);
    assert_eq!(events.len(), 1);
    match &events[0] {
        Event::Arp { sender_mac, sender_ip, target_mac, target_ip, operation, counted } => {
            assert_eq!(sender_mac, "11:22:33:44:55:66");
            assert_eq!(sender_ip, "192.168.1.50");
            assert_eq!(target_mac, "ff:ff:ff:ff:ff:ff");
            assert_eq!(target_ip, "192.168.1.99");
            assert_eq!(*operation, 1);
            // the sender address is inside this host's IPv4 literal:
            // counted as outgoing
            assert_eq!(*counted, (0, 1));
        },
        _ => panic!("expected an ARP event"),
    }
    assert_eq!(s.counter.get(Protocol::Arp), (0, 1));
    assert!(s.connections.get(&String::from("192.168.1.99")).is_none());
}

#[test]
fn icmp_echo_request_is_counted_against_the_v4_literal() {
    let mut s = wire_sniffer();
    let mut icmp: Vec<u8> = Vec::new();
    icmp.push(8); // echo request
    icmp.push(0);
    icmp.extend_from_slice(&[0, 0]); // checksum
    icmp.extend_from_slice(&7u16.to_be_bytes()); // identifier
    icmp.extend_from_slice(&3u16.to_be_bytes()); // sequence

    let mut ip: Vec<u8> = Vec::new();
    ip.push(0x45);
    ip.push(0);
    ip.extend_from_slice(&((20 + icmp.len()) as u16).to_be_bytes());
    ip.extend_from_slice(&[0, 0, 0, 0]);
    ip.push(64);
    ip.push(1); // icmp
    ip.extend_from_slice(&[0, 0]);
    ip.extend_from_slice(&[192, 168, 1, 50]);
    ip.extend_from_slice(&[8, 8, 8, 8]);
    ip.extend_from_slice(&icmp);

    let mut frame: Vec<u8> = Vec::new();
    frame.extend_from_slice(&[0; 12]);
    frame.extend_from_slice(&[0x08, 0x00]);
    frame.extend_from_slice(&ip);

    let events = s.handle_ethernet_frame_at(&frame, 0);
    assert_eq!(events.len(), 1);
    match &events[0] {
        Event::IcmpEchoRequest { source, destination, id, seq_no, counted } => {
            assert_eq!(source, "192.168.1.50");
            assert_eq!(destination, "8.8.8.8");
            assert_eq!(*id, 7);
            assert_eq!(*seq_no, 3);
            assert_eq!(*counted, (0, 1));
        },
        _ => panic!("expected an ICMP echo request event"),
    }
    assert_eq!(s.counter.get(Protocol::Icmp), (0, 1));
}

#[test]
fn ipv4_addresses_format_as_dotted_quads() {
    assert_eq!(ipv4_to_string(10, 0, 0, 5), "10.0.0.5");
    assert_eq!(ipv4_to_string(255, 255, 255, 255), "255.255.255.255");
    assert_eq!(ipv4_to_string(0, 0, 0, 0), "0.0.0.0");
}

#[test]
fn ipv6_addresses_compress_like_the_standard_library() {
    assert_eq!(ipv6_to_string(&vec![0xff02, 0, 0, 0, 0, 0, 0, 0xfb]), "ff02::fb");
    assert_eq!(ipv6_to_string(&vec![0, 0, 0, 0, 0, 0, 0, 0]), "::");
    assert_eq!(ipv6_to_string(&vec![0, 0, 0, 0, 0, 0, 0, 1]), "::1");
    assert_eq!(
        ipv6_to_string(&vec![0x2001, 0xdb8, 0, 0, 1, 0, 0, 1]),
        "2001:db8::1:0:0:1"
    );
    assert_eq!(
        ipv6_to_string(&vec![1, 2, 3, 4, 5, 6, 7, 8]),
        "1:2:3:4:5:6:7:8"
    );
    assert_eq!(
        ipv6_to_string(&vec![0, 0, 0xffff, 0xffff, 0, 0, 0, 0]),
        "0:0:ffff:ffff::"
    );
    assert_eq!(
        ipv6_to_string(&vec![0, 0, 0, 0, 0, 0xffff, 0x0a00, 0x0005]),
        "::ffff:10.0.0.5"
    );
}

#[test]
fn numbers_format_in_decimal_and_hex() {
    assert_eq!(u16_dec_string(0), "0");
    assert_eq!(u16_dec_string(65535), "65535");
    assert_eq!(u16_hex_string(0), "0");
    assert_eq!(u16_hex_string(0xff02), "ff02");
    assert_eq!(u16_hex_string(0xb), "b");
}

#[test]
fn mac_addresses_format_zero_padded() {
    assert_eq!(
        mac_to_string(&[0x0a, 0xbb, 0x0c, 0xdd, 0x0e, 0xff]),
        "0a:bb:0c:dd:0e:ff"
    );
}

#[test]
fn raw_ip_packets_get_a_synthesized_frame() {
    let mut packet = vec![0u8; 40];
    packet[0] = 0x45;
    let frame = frame_for_raw_ip(&packet).unwrap();
    assert_eq!(frame.len(), 2000);
    assert_eq!(&frame[0..12], &[0u8; 12]);
    assert_eq!(&frame[12..14], &[0x08, 0x00]);
    assert_eq!(&frame[14..54], &packet[..]);
    assert!(frame[54..].iter().all(|&b| b == 0));

    packet[0] = 0x60;
    let frame6 = frame_for_raw_ip(&packet).unwrap();
    assert_eq!(&frame6[12..14], &[0x86, 0xdd]);

    packet[0] = 0x75;
    assert!(frame_for_raw_ip(&packet).is_none());
    assert!(frame_for_raw_ip(&[0x45; 10]).is_none());
}

#[test]
fn interface_commands_follow_the_platform() {
    let i = SimpleInterface {
        name: String::from("eth0"),
        ipv4: String::from("192.168.1.50/24"),
        ipv6: String::from("fe80::1/64"),
        mac: String::from("aa:bb:cc:dd:ee:ff"),
    };
    assert_eq!(i.down_command(Os::Other), "sudo ip link set dev eth0 down");
    assert_eq!(i.up_command(Os::Other), "sudo ip link set dev eth0 up");
    assert_eq!(i.down_command(Os::Macos), "sudo ifconfig eth0 down");
    assert_eq!(
        i.down_command(Os::Windows),
        "netsh interface set interface \"eth0\" admin=disable"
    );
    let mut iw = i;
    let cmds = iw.setup("10.1.1.1", "255.255.255.0", "10.1.1.254", Os::Windows);
    assert_eq!(
        cmds,
        vec![String::from(
            "netsh interface ipv4 set address name=\"eth0\" static 10.1.1.1 255.255.255.0 10.1.1.254"
        )]
    );
    assert_eq!(iw.ipv4, "10.1.1.1");
    let again = iw.setup("10.1.1.1", "255.255.255.0", "10.1.1.254", Os::Windows);
    assert!(again.is_empty());
}

#[test]
fn eligibility_needs_admin_up_and_two_addresses() {
    assert!(SimpleInterface::is_up(true, 2));
    assert!(!SimpleInterface::is_up(true, 1));
    assert!(!SimpleInterface::is_up(false, 2));
    let made = SimpleInterface::new(
        String::from("eth0"),
        vec![String::from("192.168.1.50/24"), String::from("fe80::1/64")],
        String::from("aa:bb:cc:dd:ee:ff"),
        true,
    );
    let i = made.unwrap();
    assert_eq!(i.ipv4, "192.168.1.50/24");
    assert_eq!(i.ipv6, "fe80::1/64");
    let refused = SimpleInterface::new(
        String::from("eth0"),
        vec![String::from("192.168.1.50/24")],
        String::from("aa:bb:cc:dd:ee:ff"),
        true,
    );
    assert!(refused.is_none());
}
