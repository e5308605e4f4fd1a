use botnet_tracker::action::Action;
use botnet_tracker::counter::Protocol;
use botnet_tracker::list::List;
use botnet_tracker::simple_interface::Os;
use botnet_tracker::simple_interface::SimpleInterface;
use botnet_tracker::simple_packet::IpVersion;
use botnet_tracker::simple_packet::SimplePacket;
use botnet_tracker::sniffer::Sniffer;

const HOUR_MS: u64 = 3_600_000;

fn test_interface() -> SimpleInterface {
    SimpleInterface {
        name: String::from("eth0"),
        ipv4: String::from("192.168.1.50/24"),
        ipv6: String::from("fe80::1/64"),
        mac: String::from("aa:bb:cc:dd:ee:ff"),
    }
}

fn test_sniffer(action: Action) -> Sniffer {
    Sniffer::new(
        test_interface(),
        List::new("Botnet Bad IPs", "blocked addresses"),
        List::new("Non Working Hours Whitelist", "allowed off-hours"),
        List::new("Keywords", "payload keywords"),
        action,
        Os::Other,
    )
}

fn udp_packet(src: &str, dst: &str, time: u64, payload: &[u8]) -> SimplePacket {
    SimplePacket::new_at(
        Protocol::Udp,
        String::from("eth0"),
        String::from(src),
        1234,
        String::from(dst),
        5678,
        IpVersion::V4,
        8 + payload.len(),
        0,
        payload.to_vec(),
        time,
    )
}

fn tcp_packet(src: &str, dst: &str, time: u64, payload: &[u8]) -> SimplePacket {
    SimplePacket::new_at(
        Protocol::Tcp,
        String::from("eth0"),
        String::from(src),
        1234,
        String::from(dst),
        80,
        IpVersion::V4,
        20 + payload.len(),
        0,
        payload.to_vec(),
        time,
    )
}

#[test]
fn hours_seven_and_twenty_two_are_in_window() {
    let s = test_sniffer(Action::NOTHING);
    let p7 = udp_packet("8.8.8.8", "9.9.9.9", 7 * HOUR_MS, b"");
    let p22 = udp_packet("8.8.8.8", "9.9.9.9", 22 * HOUR_MS, b"");
    assert!(!s.working_hours_check(&p7));
    assert!(!s.working_hours_check(&p22));
}

#[test]
fn hours_six_and_twenty_three_are_out_of_window() {
    let s = test_sniffer(Action::NOTHING);
    let p6 = udp_packet("8.8.8.8", "9.9.9.9", 6 * HOUR_MS, b"");
    let p23 = udp_packet("8.8.8.8", "9.9.9.9", 23 * HOUR_MS, b"");
    assert!(s.working_hours_check(&p6));
    assert!(s.working_hours_check(&p23));
}

#[test]
fn multicast_destinations_never_touch_the_scoreboard() {
    let mut s = test_sniffer(Action::NOTHING);
    for dst in ["ff02::fb", "ff01::fb", "ff05::fb"] {
        for _ in 0..3 {
            let p = udp_packet("192.168.1.50", dst, 10 * HOUR_MS, b"");
            let r = s.ddos_check(&p);
            assert!(!r.repeat);
            assert!(!r.alarm);
        }
        assert!(s.connections.get(&String::from(dst)).is_none());
    }
}

#[test]
fn blocklist_destination_annotation_overrides_source() {
    let mut s = test_sniffer(Action::NOTHING);
    s.blocklist.add(String::from("1.1.1.1"), String::from("A"));
    s.blocklist.add(String::from("2.2.2.2"), String::from("B"));
    let p = udp_packet("1.1.1.1", "2.2.2.2", 10 * HOUR_MS, b"");
    let ann = s.blocklist_check(&p);
    assert_eq!(ann.unwrap(), "B");
    let p2 = udp_packet("1.1.1.1", "3.3.3.3", 10 * HOUR_MS, b"");
    assert_eq!(s.blocklist_check(&p2).unwrap(), "A");
    let p3 = udp_packet("4.4.4.4", "3.3.3.3", 10 * HOUR_MS, b"");
    assert!(s.blocklist_check(&p3).is_none());
}

#[test]
fn keyword_scan_is_case_insensitive_on_the_payload() {
    let mut s = test_sniffer(Action::NOTHING);
    s.keywords.add(String::from("cmd.exe"), String::from("C&C command"));
    let p = udp_packet("1.1.1.1", "2.2.2.2", 10 * HOUR_MS, b"xx CMD.EXE yy");
    let hit = s.keyword_check(&p);
    let (k, a) = hit.unwrap();
    assert_eq!(k, "cmd.exe");
    assert_eq!(a, "C&C command");
    let p2 = udp_packet("1.1.1.1", "2.2.2.2", 10 * HOUR_MS, b"nothing here");
    assert!(s.keyword_check(&p2).is_none());
}

#[test]
fn off_hours_whitelisted_destination_stays_quiet() {
    let mut s = test_sniffer(Action::INTERFACE);
    s.whitelist.add(String::from("10.0.0.200"), String::from("Working Hour Whitelist"));
    let p = tcp_packet("192.168.1.50", "10.0.0.200", 2 * HOUR_MS, b"");
    let r = s.perform_check(&p);
    assert!(!r.off_hours);
    assert!(r.blocklist.is_none());
    assert!(r.keyword.is_none());
    assert!(!r.ddos_repeat);
    assert!(r.commands.is_empty());
    // counted as outgoing traffic of this host
    assert_eq!(r.counted, Some((Protocol::Tcp, 0, 1)));
}

#[test]
fn off_hours_unlisted_destination_trips_mitigation() {
    let mut s = test_sniffer(Action::INTERFACE);
    s.whitelist.add(String::from("10.0.0.200"), String::from("Working Hour Whitelist"));
    let p = tcp_packet("192.168.1.50", "10.0.0.201", 2 * HOUR_MS, b"");
    let r = s.perform_check(&p);
    assert!(r.off_hours);
    assert!(!r.ddos_repeat, "first contact with the destination");
    assert_eq!(r.commands, vec![String::from("sudo ip link set dev eth0 down")]);
}

#[test]
fn multicast_destination_never_fires_the_flood_rule() {
    let mut s = test_sniffer(Action::INTERFACE);
    let p = udp_packet("192.168.1.50", "ff02::fb", 10 * HOUR_MS, b"");
    let r = s.perform_check(&p);
    assert!(!r.ddos_repeat);
    assert!(!r.ddos_alarm);
    assert!(s.connections.get(&String::from("ff02::fb")).is_none());
    assert!(r.commands.is_empty());
}

#[test]
fn flood_of_udp_packets_trips_the_detector() {
    let mut s = test_sniffer(Action::INTERFACE);
    let t0 = 10 * HOUR_MS;
    let down = String::from("sudo ip link set dev eth0 down");
    for k in 0..45u64 {
        let p = udp_packet("192.168.1.50", "10.0.0.5", t0 + 100 * k, b"");
        let r = s.perform_check(&p);
        if k == 0 {
            // first contact creates the entry and stays quiet
            assert!(!r.ddos_repeat);
            assert!(r.commands.is_empty());
        } else {
            // every repeat contact is a rule hit, so the interface is
            // shut down on each one
            assert!(r.ddos_repeat);
            assert_eq!(r.commands, vec![down.clone()]);
            // the weight crosses below one on the 44th update
            if k < 44 {
                assert!(!r.ddos_alarm, "no alarm after {} updates", k);
            } else {
                assert!(r.ddos_alarm, "alarm after {} updates", k);
            }
        }
    }
    let entry = s.connections.get(&String::from("10.0.0.5")).unwrap();
    assert!(entry.last <= entry.current);
    assert_eq!(entry.current, t0 + 100 * 44);
}

#[test]
fn network_action_reconfigures_once() {
    let mut s = test_sniffer(Action::NETWORK);
    s.blocklist.add(String::from("6.6.6.6"), String::from("bad"));
    let p = tcp_packet("192.168.1.50", "6.6.6.6", 10 * HOUR_MS, b"");
    let r = s.perform_check(&p);
    assert_eq!(
        r.commands,
        vec![
            String::from("sudo ifconfig eth0 192.168.0.110 netmask 255.255.255.0"),
            String::from("sudo route add default gw 192.168.0.1 eth0"),
        ]
    );
    assert_eq!(s.interface.ipv4, "192.168.0.110");
    // a second hit finds the address already set and issues nothing
    let p2 = tcp_packet("192.168.0.110", "6.6.6.6", 10 * HOUR_MS + 1000, b"");
    let r2 = s.perform_check(&p2);
    assert!(r2.ddos_repeat);
    assert!(r2.commands.is_empty());
}

#[test]
fn counters_tally_incoming_and_outgoing_monotonically() {
    let mut s = test_sniffer(Action::NOTHING);
    let out1 = s.update_counter(Protocol::Udp, true, false);
    assert_eq!(out1, (0, 1));
    let in1 = s.update_counter(Protocol::Udp, false, true);
    assert_eq!(in1, (1, 1));
    // source wins when both flags hold
    let both = s.update_counter(Protocol::Udp, true, true);
    assert_eq!(both, (1, 2));
    let neither = s.update_counter(Protocol::Udp, false, false);
    assert_eq!(neither, (1, 2));
    assert_eq!(s.counter.get(Protocol::Tcp), (0, 0));
    assert_eq!(s.counter.get(Protocol::Udp), (1, 2));
}

#[test]
fn packets_not_involving_this_host_are_not_counted() {
    let mut s = test_sniffer(Action::INTERFACE);
    s.blocklist.add(String::from("6.6.6.6"), String::from("bad"));
    let p = udp_packet("7.7.7.7", "6.6.6.6", 10 * HOUR_MS, b"");
    let r = s.perform_check(&p);
    // the blocklist fires, but neither address is local: no counter
    // update and no mitigation
    assert_eq!(r.blocklist.unwrap(), "bad");
    assert_eq!(r.counted, None);
    assert!(r.commands.is_empty());
    assert_eq!(s.counter.get(Protocol::Udp), (0, 0));
}

#[test]
fn clock_step_back_counts_as_burst() {
    let mut s = test_sniffer(Action::NOTHING);
    let p1 = udp_packet("1.1.1.1", "10.0.0.9", 1000, b"");
    s.ddos_check(&p1);
    // an observation stamped earlier than the entry counts as the same
    // moment: the timestamps do not move backwards and the zero gap
    // falls in the burst branch
    let p2 = udp_packet("1.1.1.1", "10.0.0.9", 500, b"");
    let r = s.ddos_check(&p2);
    assert!(r.repeat);
    let e = s.connections.get(&String::from("10.0.0.9")).unwrap();
    assert_eq!(e.last, 1000);
    assert_eq!(e.current, 1000);
    assert_eq!(e.num, vec![0, 0, 9]);
    assert_eq!(e.den, vec![0, 1]);
}
