//! The analysis engine: the four anomaly rules, the per-destination
//! scoreboard, the counter and the mitigation decision.

use vstd::prelude::*;

use crate::action::Action;
use crate::assoc::Assoc;
use crate::connection::Connection;
use crate::connection::ConnInfo;
use crate::connection::conn_step;
use crate::connection::fresh_conn;
use crate::counter::Counter;
use crate::counter::Protocol;
use crate::list::List;
use crate::simple_interface::Os;
use crate::simple_interface::SimpleInterface;
use crate::simple_interface::spec_down_command;
use crate::simple_interface::spec_setup_commands;
use crate::simple_packet::IpVersion;
use crate::simple_packet::SimplePacket;
use crate::simple_packet::now_unix_millis;
use crate::parse::EthFrame;
use crate::parse::parse_arp;
use crate::parse::parse_arp_bytes;
use crate::parse::parse_ethernet;
use crate::parse::parse_ethernet_bytes;
use crate::parse::parse_icmp_echo;
use crate::parse::parse_icmp_echo_bytes;
use crate::parse::parse_icmp_type;
use crate::parse::parse_icmp_type_byte;
use crate::parse::parse_ipv4;
use crate::parse::parse_ipv4_bytes;
use crate::parse::parse_ipv6;
use crate::parse::parse_ipv6_bytes;
use crate::parse::parse_tcp;
use crate::parse::parse_tcp_bytes;
use crate::parse::parse_udp;
use crate::parse::parse_udp_bytes;
use crate::addrfmt::ipv4_string;
use crate::addrfmt::ipv4_to_string;
use crate::addrfmt::ipv6_string;
use crate::addrfmt::ipv6_to_string;
use crate::addrfmt::mac_string;
use crate::addrfmt::mac_to_string;
use crate::strutil::clone_string;
use crate::strutil::chars_contain;
use crate::strutil::is_substring;
use crate::strutil::str_chars;
use crate::strutil::str_contains_str;
use crate::strutil::str_eq;

verus! {

/// What decoding a byte stream as text yields, depending on the bytes
/// alone.
pub uninterp spec fn lossy_utf8_of(b: Seq<u8>) -> Seq<char>;

/// The lower-cased form of a text, depending on the characters alone.
pub uninterp spec fn lower_of(s: Seq<char>) -> Seq<char>;

/// Relies on `String::from_utf8_lossy`: the decoding is a function of
/// the bytes alone; invalid sequences become replacement characters.
#[verifier::external_body]
fn bytes_lossy_utf8(b: &[u8]) -> (r: String)
    ensures
        r@ == lossy_utf8_of(b@),
{
    String::from_utf8_lossy(b).to_string()
}

/// Relies on `str::to_lowercase`: the result is a function of the
/// characters alone.
#[verifier::external_body]
fn to_lowercase(s: &str) -> (r: String)
    ensures
        r@ == lower_of(s@),
{
    s.to_lowercase()
}

/// The reserved multicast destinations the flood detector ignores.
pub open spec fn multicast_addr(a: Seq<char>) -> bool {
    a == "ff02::fb"@ || a == "ff01::fb"@ || a == "ff05::fb"@
}

/// An address occurs inside one of the two interface literals.  The
/// match is deliberately loose: the literal may carry a CIDR suffix.
pub open spec fn local_hit(v4: Seq<char>, v6: Seq<char>, addr: Seq<char>) -> bool {
    is_substring(v4, addr) || is_substring(v6, addr)
}

/// The hour of day, UTC, of a Unix-millisecond timestamp.
pub open spec fn spec_hour(t: u64) -> int {
    ((t as int) / 3600000) % 24
}

/// The off-hours rule fires outside 07:00-22:59 UTC when neither address
/// is whitelisted.
pub open spec fn off_hours_fires(
    wl: Map<Seq<char>, Seq<char>>,
    src: Seq<char>,
    dst: Seq<char>,
    t: u64,
) -> bool {
    (spec_hour(t) < 7 || spec_hour(t) > 22) && !(wl.contains_key(src) || wl.contains_key(dst))
}

/// The annotation the blocklist rule reports: the destination's, else
/// the source's, else nothing.
pub open spec fn blocklist_pick(
    bl: Map<Seq<char>, Seq<char>>,
    src: Seq<char>,
    dst: Seq<char>,
) -> Option<Seq<char>> {
    if bl.contains_key(dst) {
        Some(bl[dst])
    } else if bl.contains_key(src) {
        Some(bl[src])
    } else {
        None
    }
}

/// An optional string holds exactly an optional text.
pub open spec fn opt_string_is(r: Option<String>, s: Option<Seq<char>>) -> bool {
    match (r, s) {
        (Some(a), Some(b)) => a@ == b,
        (None, None) => true,
        _ => false,
    }
}

/// Entry `i` is the first keyword entry found in the payload.
pub open spec fn keyword_hit_at(entries: Seq<(String, String)>, pl: Seq<char>, i: int) -> bool {
    &&& 0 <= i < entries.len()
    &&& is_substring(pl, entries[i].0@)
    &&& forall|j: int| 0 <= j < i ==> !is_substring(pl, #[trigger] entries[j].0@)
}

/// What the keyword scan returns: the first entry whose key occurs in
/// the lower-cased payload, with its annotation, or nothing when no key
/// occurs.
pub open spec fn keyword_result_ok(
    entries: Seq<(String, String)>,
    kw: Map<Seq<char>, Seq<char>>,
    pl: Seq<char>,
    r: Option<(String, String)>,
) -> bool {
    match r {
        Some(p) => exists|i: int|
            #[trigger] keyword_hit_at(entries, pl, i) && entries[i].0@ == p.0@ && kw.contains_key(
                p.0@,
            ) && p.1@ == kw[p.0@],
        None => forall|j: int|
            0 <= j < entries.len() ==> !is_substring(pl, #[trigger] entries[j].0@),
    }
}

/// What the flood detector returned.
#[derive(PartialEq, Eq, Structural, Clone, Copy, Debug)]
pub struct DdosResult {
    /// The destination was already on the scoreboard (the rule fires
    /// on any repeat contact).
    pub repeat: bool,
    /// The updated weight fell below one, so a warning is due.
    pub alarm: bool,
}

/// What the flood detector does to the scoreboard and returns.
pub open spec fn ddos_result_ok(
    oldb: Map<Seq<char>, ConnInfo>,
    newb: Map<Seq<char>, ConnInfo>,
    dst: Seq<char>,
    t: u64,
    r: DdosResult,
) -> bool {
    if multicast_addr(dst) {
        newb == oldb && r.repeat == false && r.alarm == false
    } else if oldb.contains_key(dst) {
        let c = conn_step(oldb[dst], t);
        newb == oldb.insert(dst, c) && r.repeat == true && r.alarm == (c.num < c.den)
    } else {
        newb == oldb.insert(dst, fresh_conn(t)) && r.repeat == false && r.alarm == false
    }
}

/// Everything one check reports, for the caller to print and to act on.
pub struct CheckReport {
    /// The blocklist annotation, when the rule fired.
    pub blocklist: Option<String>,
    /// The off-hours rule fired.
    pub off_hours: bool,
    /// The matched keyword and its annotation, when the scan fired.
    pub keyword: Option<(String, String)>,
    /// The flood rule fired: the destination was already known.
    pub ddos_repeat: bool,
    /// The updated weight fell below one.
    pub ddos_alarm: bool,
    /// The counter row written, when the packet involved this host.
    pub counted: Option<(Protocol, u64, u64)>,
    /// The mitigation commands for the caller to run, in order.
    pub commands: Vec<String>,
}

/// Everything `perform_check` promises: what each rule found, how the
/// scoreboard, the counter and the interface record changed, and which
/// mitigation commands came back.
pub open spec fn check_ok(pre: Sniffer, post: Sniffer, packet: SimplePacket, r: CheckReport) -> bool {
    &&& post.blocklist == pre.blocklist
    &&& post.whitelist == pre.whitelist
    &&& post.keywords == pre.keywords
    &&& post.action == pre.action
    &&& post.os == pre.os
    // what the four rules found
    &&& opt_string_is(
        r.blocklist,
        blocklist_pick(pre.blocklist@, packet.source_address@, packet.destination_address@),
    )
    &&& r.off_hours == off_hours_fires(
        pre.whitelist@,
        packet.source_address@,
        packet.destination_address@,
        packet.time,
    )
    &&& keyword_result_ok(
        pre.keywords.entries(),
        pre.keywords@,
        lower_of(lossy_utf8_of(packet.payload@)),
        r.keyword,
    )
    &&& ddos_result_ok(
        pre.board(),
        post.board(),
        packet.destination_address@,
        packet.time,
        DdosResult { repeat: r.ddos_repeat, alarm: r.ddos_alarm },
    )
    // the counter is touched exactly when the packet involves this host
    &&& ({
        let v4 = pre.interface.ipv4@;
        let v6 = pre.interface.ipv6@;
        let src_local = local_hit(v4, v6, packet.source_address@);
        let dst_local = local_hit(v4, v6, packet.destination_address@);
        if src_local || dst_local {
            &&& post.counter.row(packet.category) == Counter::spec_bump(
                pre.counter.row(packet.category),
                src_local,
                dst_local,
            )
            &&& forall|q: Protocol|
                q != packet.category ==> post.counter.row(q) == pre.counter.row(q)
            &&& r.counted == Some(
                (
                    packet.category,
                    post.counter.row(packet.category).0,
                    post.counter.row(packet.category).1,
                ),
            )
        } else {
            &&& post.counter == pre.counter
            &&& r.counted == None::<(Protocol, u64, u64)>
        }
    })
    // mitigation: commands to run, and the interface record
    &&& ({
        let v4 = pre.interface.ipv4@;
        let v6 = pre.interface.ipv6@;
        let src_local = local_hit(v4, v6, packet.source_address@);
        let dst_local = local_hit(v4, v6, packet.destination_address@);
        let fired = blocklist_pick(
            pre.blocklist@,
            packet.source_address@,
            packet.destination_address@,
        ) is Some || r.off_hours || r.ddos_repeat || r.keyword is Some;
        if (src_local || dst_local) && fired && pre.action == Action::INTERFACE {
            &&& post.interface == pre.interface
            &&& r.commands@.map_values(|c: String| c@) == seq![
                spec_down_command(pre.interface.name@, pre.os),
            ]
        } else if (src_local || dst_local) && fired && pre.action == Action::NETWORK {
            &&& post.interface.name == pre.interface.name
            &&& post.interface.ipv6 == pre.interface.ipv6
            &&& post.interface.mac == pre.interface.mac
            &&& post.interface.ipv4@ == "192.168.0.110"@
            &&& (pre.interface.ipv4@ != "192.168.0.110"@ ==> r.commands@.map_values(
                |c: String| c@,
            ) == spec_setup_commands(
                pre.interface.name@,
                "192.168.0.110"@,
                "255.255.255.0"@,
                "192.168.0.1"@,
                pre.os,
            ))
            &&& (pre.interface.ipv4@ == "192.168.0.110"@ ==> r.commands@.len() == 0)
        } else {
            &&& post.interface == pre.interface
            &&& r.commands@.len() == 0
        }
    })
}

pub struct Sniffer {
    pub interface: SimpleInterface,
    pub blocklist: List,
    pub whitelist: List,
    pub keywords: List,
    pub connections: Assoc<Connection>,
    pub action: Action,
    pub counter: Counter,
    pub os: Os,
}

impl Sniffer {
    /// Every scoreboard entry is well-formed.
    pub open spec fn wf(&self) -> bool {
        forall|k: Seq<char>|
            self.connections@.contains_key(k) ==> (#[trigger] self.connections@[k]).wf()
    }

    /// The scoreboard as a map from destination addresses to entry
    /// denotations.
    pub open spec fn board(&self) -> Map<Seq<char>, ConnInfo> {
        self.connections@.map_values(|c: Connection| c@)
    }

    /// A fresh engine around an interface, the three lists, the chosen
    /// action and the platform.
    pub fn new(
        interface: SimpleInterface,
        blocklist: List,
        whitelist: List,
        keywords: List,
        action: Action,
        os: Os,
    ) -> (r: Sniffer)
        ensures
            r.wf(),
            r.interface == interface,
            r.blocklist == blocklist,
            r.whitelist == whitelist,
            r.keywords == keywords,
            r.action == action,
            r.os == os,
            r.board() == Map::<Seq<char>, ConnInfo>::empty(),
            r.counter.tcp == (0u64, 0u64),
            r.counter.udp == (0u64, 0u64),
            r.counter.icmp == (0u64, 0u64),
            r.counter.arp == (0u64, 0u64),
    {
        let r = Sniffer {
            interface,
            blocklist,
            whitelist,
            keywords,
            connections: Assoc::new(),
            action,
            counter: Counter::new(),
            os,
        };
        proof {
            assert(r.board() =~= Map::<Seq<char>, ConnInfo>::empty());
        }
        r
    }

    /// Count one packet of a protocol: outgoing when its source is this
    /// host, else incoming when its destination is.  Returns the row
    /// written.
    pub fn update_counter(&mut self, protocol: Protocol, source: bool, destination: bool) -> (r: (
        u64,
        u64,
    ))
        requires
            old(self).counter.can_count(protocol),
        ensures
            final(self).counter.row(protocol) == Counter::spec_bump(
                old(self).counter.row(protocol),
                source,
                destination,
            ),
            r == final(self).counter.row(protocol),
            forall|q: Protocol|
                q != protocol ==> final(self).counter.row(q) == old(self).counter.row(q),
            final(self).interface == old(self).interface,
            final(self).blocklist == old(self).blocklist,
            final(self).whitelist == old(self).whitelist,
            final(self).keywords == old(self).keywords,
            final(self).connections == old(self).connections,
            final(self).action == old(self).action,
            final(self).os == old(self).os,
    {
        self.counter.bump(protocol, source, destination)
    }

    /// The blocklist rule: whether either address is blocklisted, the
    /// destination's annotation preferred over the source's.
    pub fn blocklist_check(&self, packet: &SimplePacket) -> (r: Option<String>)
        ensures
            opt_string_is(
                r,
                blocklist_pick(
                    self.blocklist@,
                    packet.source_address@,
                    packet.destination_address@,
                ),
            ),
    {
        match self.blocklist.get(&packet.destination_address) {
            Some(a) => Some(clone_string(a)),
            None => match self.blocklist.get(&packet.source_address) {
                Some(a) => Some(clone_string(a)),
                None => None,
            },
        }
    }

    /// The off-hours rule: outside 07:00-22:59 UTC, a packet neither of
    /// whose addresses is whitelisted is anomalous.
    pub fn working_hours_check(&self, packet: &SimplePacket) -> (r: bool)
        ensures
            r == off_hours_fires(
                self.whitelist@,
                packet.source_address@,
                packet.destination_address@,
                packet.time,
            ),
    {
        let hour = (packet.time / 3600000) % 24;
        if hour < 7 || hour > 22 {
            !(self.whitelist.contains(&packet.source_address) || self.whitelist.contains(
                &packet.destination_address,
            ))
        } else {
            false
        }
    }

    /// The keyword rule: the payload is decoded as lossy UTF-8 and
    /// lower-cased, and the first list entry occurring in it is
    /// reported.
    pub fn keyword_check(&self, packet: &SimplePacket) -> (r: Option<(String, String)>)
        ensures
            keyword_result_ok(
                self.keywords.entries(),
                self.keywords@,
                lower_of(lossy_utf8_of(packet.payload@)),
                r,
            ),
    {
        let decoded = bytes_lossy_utf8(packet.payload.as_slice());
        let lowered = to_lowercase(decoded.as_str());
        let pl = str_chars(lowered.as_str());
        let n = self.keywords.len();
        let ghost plv = lower_of(lossy_utf8_of(packet.payload@));
        let mut i: usize = 0;
        while i < n
            invariant
                n == self.keywords.entries().len(),
                i <= n,
                pl@ == plv,
                plv == lower_of(lossy_utf8_of(packet.payload@)),
                forall|j: int|
                    0 <= j < i ==> !is_substring(plv, #[trigger] self.keywords.entries()[j].0@),
            decreases n - i,
        {
            let k = self.keywords.key_at(i);
            let kv = str_chars(k.as_str());
            if chars_contain(&pl, &kv) {
                let a = self.keywords.val_at(i);
                let kk = clone_string(k);
                let aa = clone_string(a);
                proof {
                    assert(keyword_hit_at(self.keywords.entries(), plv, i as int));
                    assert(kk@ == self.keywords.entries()[i as int].0@);
                    assert(self.keywords@.contains_key(kk@));
                    assert(aa@ == self.keywords@[kk@]);
                    assert(keyword_hit_at(
                        self.keywords.entries(),
                        lower_of(lossy_utf8_of(packet.payload@)),
                        i as int,
                    ));
                    assert(keyword_result_ok(
                        self.keywords.entries(),
                        self.keywords@,
                        lower_of(lossy_utf8_of(packet.payload@)),
                        Some((kk, aa)),
                    ));
                }
                return Some((kk, aa));
            }
            i = i + 1;
        }
        None
    }

    /// The flood rule.  A reserved multicast destination is ignored.  A
    /// destination already on the scoreboard has its entry updated with
    /// the packet time and the rule reports a repeat contact, with an
    /// alarm when the weight fell below one.  A new destination is
    /// entered with weight 100 and the rule stays quiet.
    pub fn ddos_check(&mut self, packet: &SimplePacket) -> (r: DdosResult)
        requires
            old(self).wf(),
        ensures
            final(self).wf(),
            ddos_result_ok(
                old(self).board(),
                final(self).board(),
                packet.destination_address@,
                packet.time,
                r,
            ),
            final(self).interface == old(self).interface,
            final(self).blocklist == old(self).blocklist,
            final(self).whitelist == old(self).whitelist,
            final(self).keywords == old(self).keywords,
            final(self).action == old(self).action,
            final(self).counter == old(self).counter,
            final(self).os == old(self).os,
    {
        let dst = &packet.destination_address;
        if str_eq(dst.as_str(), "ff02::fb") || str_eq(dst.as_str(), "ff01::fb") || str_eq(
            dst.as_str(),
            "ff05::fb",
        ) {
            return DdosResult { repeat: false, alarm: false };
        }
        let existing: Option<Connection> = match self.connections.get(dst) {
            Some(c) => Some(c.duplicate()),
            None => None,
        };
        match existing {
            Some(mut c) => {
                proof {
                    assert(old(self).board().contains_key(dst@));
                    assert(c@ == old(self).board()[dst@]);
                }
                // time never moves backwards: an observation stamped
                // earlier than the entry counts as the same moment, so
                // the gap is zero and falls in the burst branch
                let t: u64 = if packet.time >= c.current {
                    packet.time
                } else {
                    c.current
                };
                let alarm = c.update(t);
                proof {
                    assert(c@ == conn_step(old(self).board()[dst@], packet.time));
                }
                self.connections.insert(clone_string(dst), c);
                proof {
                    assert(self.board() =~= old(self).board().insert(dst@, c@));
                }
                DdosResult { repeat: true, alarm }
            },
            None => {
                proof {
                    assert(!old(self).board().contains_key(dst@));
                }
                let c = Connection::new(packet.time);
                proof {
                    assert(c@ == fresh_conn(packet.time));
                }
                self.connections.insert(clone_string(dst), c);
                proof {
                    assert(self.board() =~= old(self).board().insert(dst@, c@));
                }
                DdosResult { repeat: false, alarm: false }
            },
        }
    }

    /// Evaluate all four rules on a packet, count it when it involves
    /// this host, and decide the mitigation.  Every rule runs: the flood
    /// rule's scoreboard update must happen on every qualifying packet.
    /// The returned report carries what each rule found, the counter row
    /// written, and the shell commands the mitigation asks for.
    #[verifier::rlimit(100)]
    pub fn perform_check(&mut self, packet: &SimplePacket) -> (r: CheckReport)
        requires
            old(self).wf(),
            old(self).counter.can_count(packet.category),
        ensures
            final(self).wf(),
            check_ok(*old(self), *final(self), *packet, r),
    {
        let source = str_contains_str(
            self.interface.ipv4.as_str(),
            packet.source_address.as_str(),
        ) || str_contains_str(self.interface.ipv6.as_str(), packet.source_address.as_str());
        let destination = str_contains_str(
            self.interface.ipv4.as_str(),
            packet.destination_address.as_str(),
        ) || str_contains_str(self.interface.ipv6.as_str(), packet.destination_address.as_str());
        let self_request = source || destination;
        let blocklist = self.blocklist_check(packet);
        let working_hours = self.working_hours_check(packet);
        let keyword = self.keyword_check(packet);
        let ddos = self.ddos_check(packet);
        let mut counted: Option<(Protocol, u64, u64)> = None;
        let mut commands: Vec<String> = Vec::new();
        if self_request {
            let row = self.update_counter(packet.category, source, destination);
            counted = Some((packet.category, row.0, row.1));
            if blocklist.is_some() || working_hours || ddos.repeat || keyword.is_some() {
                if self.action == Action::INTERFACE {
                    commands.push(self.interface.down_command(self.os));
                } else if self.action == Action::NETWORK {
                    commands = self.interface.setup(
                        "192.168.0.110",
                        "255.255.255.0",
                        "192.168.0.1",
                        self.os,
                    );
                }
            }
        }
        proof {
            assert(commands@.map_values(|c: String| c@).len() == commands@.len());
        }
        let report = CheckReport {
            blocklist,
            off_hours: working_hours,
            keyword,
            ddos_repeat: ddos.repeat,
            ddos_alarm: ddos.alarm,
            counted,
            commands,
        };
        proof {
            let pre = *old(self);
            let post = *self;
            let pk = *packet;
            assert(post.blocklist == pre.blocklist);
            assert(opt_string_is(
                report.blocklist,
                blocklist_pick(pre.blocklist@, pk.source_address@, pk.destination_address@),
            ));
            assert(report.off_hours == off_hours_fires(
                pre.whitelist@,
                pk.source_address@,
                pk.destination_address@,
                pk.time,
            ));
            assert(keyword_result_ok(
                pre.keywords.entries(),
                pre.keywords@,
                lower_of(lossy_utf8_of(pk.payload@)),
                report.keyword,
            ));
            assert(ddos_result_ok(
                pre.board(),
                post.board(),
                pk.destination_address@,
                pk.time,
                DdosResult { repeat: report.ddos_repeat, alarm: report.ddos_alarm },
            ));
            assert(({
                let v4 = pre.interface.ipv4@;
                let v6 = pre.interface.ipv6@;
                let src_local = local_hit(v4, v6, pk.source_address@);
                let dst_local = local_hit(v4, v6, pk.destination_address@);
                if src_local || dst_local {
                    &&& post.counter.row(pk.category) == Counter::spec_bump(
                        pre.counter.row(pk.category),
                        src_local,
                        dst_local,
                    )
                    &&& forall|q: Protocol|
                        q != pk.category ==> post.counter.row(q) == pre.counter.row(q)
                    &&& report.counted == Some(
                        (
                            pk.category,
                            post.counter.row(pk.category).0,
                            post.counter.row(pk.category).1,
                        ),
                    )
                } else {
                    &&& post.counter == pre.counter
                    &&& report.counted == None::<(Protocol, u64, u64)>
                }
            }));
            assert(({
                let v4 = pre.interface.ipv4@;
                let v6 = pre.interface.ipv6@;
                let src_local = local_hit(v4, v6, pk.source_address@);
                let dst_local = local_hit(v4, v6, pk.destination_address@);
                let fired = blocklist_pick(
                    pre.blocklist@,
                    pk.source_address@,
                    pk.destination_address@,
                ) is Some || report.off_hours || report.ddos_repeat || report.keyword is Some;
                if (src_local || dst_local) && fired && pre.action == Action::INTERFACE {
                    &&& post.interface == pre.interface
                    &&& report.commands@.map_values(|c: String| c@) == seq![
                        spec_down_command(pre.interface.name@, pre.os),
                    ]
                } else if (src_local || dst_local) && fired && pre.action == Action::NETWORK {
                    &&& post.interface.name == pre.interface.name
                    &&& post.interface.ipv6 == pre.interface.ipv6
                    &&& post.interface.mac == pre.interface.mac
                    &&& post.interface.ipv4@ == "192.168.0.110"@
                    &&& (pre.interface.ipv4@ != "192.168.0.110"@ ==> report.commands@.map_values(
                        |c: String| c@,
                    ) == spec_setup_commands(
                        pre.interface.name@,
                        "192.168.0.110"@,
                        "255.255.255.0"@,
                        "192.168.0.1"@,
                        pre.os,
                    ))
                    &&& (pre.interface.ipv4@ == "192.168.0.110"@ ==> report.commands@.len() == 0)
                } else {
                    &&& post.interface == pre.interface
                    &&& report.commands@.len() == 0
                }
            }));
        }
        report
    }
}

/// The protocol layer a line of output speaks about.
#[derive(PartialEq, Eq, Structural, Clone, Copy, Debug)]
pub enum ProtoTag {
    Ethernet,
    Ipv4,
    Ipv6,
    Arp,
    Tcp,
    Udp,
    Icmp,
    Icmpv6,
}

/// One observation the decoder reports; the caller renders and prints
/// these.
pub enum Event {
    /// A layer failed to parse; the packet was dropped.
    Malformed { what: ProtoTag },
    /// A frame with an EtherType the decoder does not handle.
    UnknownEther { source_mac: String, destination_mac: String, ethertype: u16, length: usize },
    /// An IP packet with a next-protocol the decoder does not handle.
    UnknownTransport {
        ip_version: IpVersion,
        source: String,
        destination: String,
        protocol: u8,
        length: usize,
    },
    /// An ARP packet; counted, never checked by the rules.
    Arp {
        sender_mac: String,
        sender_ip: String,
        target_mac: String,
        target_ip: String,
        operation: u16,
        counted: (u64, u64),
    },
    /// An ICMP echo reply; counted, never checked by the rules.
    IcmpEchoReply { source: String, destination: String, id: u16, seq_no: u16, counted: (u64, u64) },
    /// An ICMP echo request; counted, never checked by the rules.
    IcmpEchoRequest {
        source: String,
        destination: String,
        id: u16,
        seq_no: u16,
        counted: (u64, u64),
    },
    /// Any other ICMP packet; counted, never checked by the rules.
    IcmpOther { source: String, destination: String, icmp_type: u8, counted: (u64, u64) },
    /// An ICMPv6 packet; counted, never checked by the rules.
    Icmpv6 { source: String, destination: String, icmpv6_type: u8, counted: (u64, u64) },
    /// A TCP or UDP packet, normalized and run through the four rules.
    Observed { packet: SimplePacket, report: CheckReport },
}

/// Nothing changed but the counter.
pub open spec fn same_except_counter(pre: Sniffer, post: Sniffer) -> bool {
    &&& post.interface == pre.interface
    &&& post.blocklist == pre.blocklist
    &&& post.whitelist == pre.whitelist
    &&& post.keywords == pre.keywords
    &&& post.connections == pre.connections
    &&& post.action == pre.action
    &&& post.os == pre.os
}

/// The single event is a normalized packet with the given fields, run
/// through the rules.
pub open spec fn observed_event_ok(
    pre: Sniffer,
    post: Sniffer,
    cat: Protocol,
    source: Seq<char>,
    destination: Seq<char>,
    ipver: IpVersion,
    sport: u16,
    dport: u16,
    length: int,
    checksum: u16,
    payload: Seq<u8>,
    now: u64,
    events: Seq<Event>,
) -> bool {
    &&& events.len() == 1
    &&& events[0] matches Event::Observed { packet, report } && {
        &&& packet.category == cat
        &&& packet.interface@ == pre.interface.name@
        &&& packet.source_address@ == source
        &&& packet.source_port == sport
        &&& packet.destination_address@ == destination
        &&& packet.destination_port == dport
        &&& packet.ip_version == ipver
        &&& packet.length == length
        &&& packet.checksum == checksum
        &&& packet.payload@ == payload
        &&& packet.time == now
        &&& check_ok(pre, post, packet, report)
    }
}

/// What handling a UDP packet does.
pub open spec fn udp_handled(
    pre: Sniffer,
    post: Sniffer,
    source: Seq<char>,
    destination: Seq<char>,
    ipver: IpVersion,
    b: Seq<u8>,
    now: u64,
    events: Seq<Event>,
) -> bool {
    match parse_udp(b) {
        Some(u) => observed_event_ok(
            pre,
            post,
            Protocol::Udp,
            source,
            destination,
            ipver,
            u.source,
            u.destination,
            b.len() as int,
            u.checksum,
            u.payload,
            now,
            events,
        ),
        None => post == pre && events =~= seq![Event::Malformed { what: ProtoTag::Udp }],
    }
}

/// What handling a TCP packet does.
pub open spec fn tcp_handled(
    pre: Sniffer,
    post: Sniffer,
    source: Seq<char>,
    destination: Seq<char>,
    ipver: IpVersion,
    b: Seq<u8>,
    now: u64,
    events: Seq<Event>,
) -> bool {
    match parse_tcp(b) {
        Some(u) => observed_event_ok(
            pre,
            post,
            Protocol::Tcp,
            source,
            destination,
            ipver,
            u.source,
            u.destination,
            b.len() as int,
            u.checksum,
            u.payload,
            now,
            events,
        ),
        None => post == pre && events =~= seq![Event::Malformed { what: ProtoTag::Tcp }],
    }
}

/// What handling an ICMP packet does: the ICMP row is counted against
/// the IPv4 literal only, and one line is reported; the rules never run.
pub open spec fn icmp_handled(
    pre: Sniffer,
    post: Sniffer,
    source: Seq<char>,
    destination: Seq<char>,
    b: Seq<u8>,
    events: Seq<Event>,
) -> bool {
    match parse_icmp_type(b) {
        None => post == pre && events =~= seq![Event::Malformed { what: ProtoTag::Icmp }],
        Some(t) => {
            if (t == 0 || t == 8) && parse_icmp_echo(b) is None {
                post == pre && events =~= seq![Event::Malformed { what: ProtoTag::Icmp }]
            } else {
                let is_src = is_substring(pre.interface.ipv4@, source);
                let is_dst = is_substring(pre.interface.ipv4@, destination);
                let row = Counter::spec_bump(pre.counter.row(Protocol::Icmp), is_src, is_dst);
                &&& same_except_counter(pre, post)
                &&& post.counter.row(Protocol::Icmp) == row
                &&& forall|q: Protocol|
                    q != Protocol::Icmp ==> post.counter.row(q) == pre.counter.row(q)
                &&& events.len() == 1
                &&& (t == 0 ==> (events[0] matches Event::IcmpEchoReply {
                    source: s,
                    destination: d,
                    id,
                    seq_no,
                    counted,
                } && s@ == source && d@ == destination && parse_icmp_echo(b) == Some((id, seq_no))
                    && counted == row))
                &&& (t == 8 ==> (events[0] matches Event::IcmpEchoRequest {
                    source: s,
                    destination: d,
                    id,
                    seq_no,
                    counted,
                } && s@ == source && d@ == destination && parse_icmp_echo(b) == Some((id, seq_no))
                    && counted == row))
                &&& (t != 0 && t != 8 ==> (events[0] matches Event::IcmpOther {
                    source: s,
                    destination: d,
                    icmp_type,
                    counted,
                } && s@ == source && d@ == destination && icmp_type == t && counted == row))
            }
        },
    }
}

/// What handling an ICMPv6 packet does: the ICMP row is counted against
/// the IPv6 literal only, and one line is reported.
pub open spec fn icmpv6_handled(
    pre: Sniffer,
    post: Sniffer,
    source: Seq<char>,
    destination: Seq<char>,
    b: Seq<u8>,
    events: Seq<Event>,
) -> bool {
    match parse_icmp_type(b) {
        None => post == pre && events =~= seq![Event::Malformed { what: ProtoTag::Icmpv6 }],
        Some(t) => {
            let is_src = is_substring(pre.interface.ipv6@, source);
            let is_dst = is_substring(pre.interface.ipv6@, destination);
            let row = Counter::spec_bump(pre.counter.row(Protocol::Icmp), is_src, is_dst);
            &&& same_except_counter(pre, post)
            &&& post.counter.row(Protocol::Icmp) == row
            &&& forall|q: Protocol|
                q != Protocol::Icmp ==> post.counter.row(q) == pre.counter.row(q)
            &&& events.len() == 1
            &&& events[0] matches Event::Icmpv6 {
                source: s,
                destination: d,
                icmpv6_type,
                counted,
            } && s@ == source && d@ == destination && icmpv6_type == t && counted == row
        },
    }
}

/// What the transport dispatch does for a next-protocol number.
pub open spec fn transport_handled(
    pre: Sniffer,
    post: Sniffer,
    source: Seq<char>,
    destination: Seq<char>,
    ipver: IpVersion,
    protocol: u8,
    b: Seq<u8>,
    now: u64,
    events: Seq<Event>,
) -> bool {
    if protocol == 17 {
        udp_handled(pre, post, source, destination, ipver, b, now, events)
    } else if protocol == 6 {
        tcp_handled(pre, post, source, destination, ipver, b, now, events)
    } else if protocol == 1 {
        icmp_handled(pre, post, source, destination, b, events)
    } else if protocol == 58 {
        icmpv6_handled(pre, post, source, destination, b, events)
    } else {
        &&& post == pre
        &&& events.len() == 1
        &&& events[0] matches Event::UnknownTransport {
            ip_version,
            source: s,
            destination: d,
            protocol: pr,
            length,
        } && ip_version == ipver && s@ == source && d@ == destination && pr == protocol && length
            == b.len()
    }
}

/// What handling an IPv4 packet does.
pub open spec fn ipv4_handled(
    pre: Sniffer,
    post: Sniffer,
    b: Seq<u8>,
    now: u64,
    events: Seq<Event>,
) -> bool {
    match parse_ipv4(b) {
        None => post == pre && events =~= seq![Event::Malformed { what: ProtoTag::Ipv4 }],
        Some(h) => transport_handled(
            pre,
            post,
            ipv4_string(h.source.0, h.source.1, h.source.2, h.source.3),
            ipv4_string(h.destination.0, h.destination.1, h.destination.2, h.destination.3),
            IpVersion::V4,
            h.protocol,
            h.payload,
            now,
            events,
        ),
    }
}

/// What handling an IPv6 packet does.
pub open spec fn ipv6_handled(
    pre: Sniffer,
    post: Sniffer,
    b: Seq<u8>,
    now: u64,
    events: Seq<Event>,
) -> bool {
    match parse_ipv6(b) {
        None => post == pre && events =~= seq![Event::Malformed { what: ProtoTag::Ipv6 }],
        Some(h) => transport_handled(
            pre,
            post,
            ipv6_string(h.source),
            ipv6_string(h.destination),
            IpVersion::V6,
            h.next_header,
            h.payload,
            now,
            events,
        ),
    }
}

/// What handling an ARP packet does: the ARP row is counted against
/// both interface literals, and one line is reported; the rules never
/// run.  The reported MAC addresses are the frame's, not the ARP
/// body's.
pub open spec fn arp_handled(
    pre: Sniffer,
    post: Sniffer,
    src_mac: Seq<u8>,
    dst_mac: Seq<u8>,
    b: Seq<u8>,
    events: Seq<Event>,
) -> bool {
    match parse_arp(b) {
        None => post == pre && events =~= seq![Event::Malformed { what: ProtoTag::Arp }],
        Some(a) => {
            let sip = ipv4_string(a.sender_ip.0, a.sender_ip.1, a.sender_ip.2, a.sender_ip.3);
            let tip = ipv4_string(a.target_ip.0, a.target_ip.1, a.target_ip.2, a.target_ip.3);
            let is_src = local_hit(pre.interface.ipv4@, pre.interface.ipv6@, sip);
            let is_dst = local_hit(pre.interface.ipv4@, pre.interface.ipv6@, tip);
            let row = Counter::spec_bump(pre.counter.row(Protocol::Arp), is_src, is_dst);
            &&& same_except_counter(pre, post)
            &&& post.counter.row(Protocol::Arp) == row
            &&& forall|q: Protocol|
                q != Protocol::Arp ==> post.counter.row(q) == pre.counter.row(q)
            &&& events.len() == 1
            &&& events[0] matches Event::Arp {
                sender_mac,
                sender_ip,
                target_mac,
                target_ip,
                operation,
                counted,
            } && sender_mac@ == mac_string(src_mac) && sender_ip@ == sip && target_mac@
                == mac_string(dst_mac) && target_ip@ == tip && operation == a.operation && counted
                == row
        },
    }
}

/// What handling one Ethernet frame does, end to end.
pub open spec fn ethernet_handled(
    pre: Sniffer,
    post: Sniffer,
    frame: Seq<u8>,
    now: u64,
    events: Seq<Event>,
) -> bool {
    match parse_ethernet(frame) {
        None => post == pre && events =~= seq![Event::Malformed { what: ProtoTag::Ethernet }],
        Some(e) => {
            if e.ethertype == 0x0800 {
                ipv4_handled(pre, post, e.payload, now, events)
            } else if e.ethertype == 0x86dd {
                ipv6_handled(pre, post, e.payload, now, events)
            } else if e.ethertype == 0x0806 {
                arp_handled(pre, post, e.src_mac, e.dst_mac, e.payload, events)
            } else {
                &&& post == pre
                &&& events.len() == 1
                &&& events[0] matches Event::UnknownEther {
                    source_mac,
                    destination_mac,
                    ethertype,
                    length,
                } && source_mac@ == mac_string(e.src_mac) && destination_mac@ == mac_string(
                    e.dst_mac,
                ) && ethertype == e.ethertype && length == frame.len()
            }
        },
    }
}

impl Sniffer {
    /// Room to count one more packet of every protocol.
    pub open spec fn counters_ok(&self) -> bool {
        forall|p: Protocol| #[trigger] self.counter.can_count(p)
    }

    /// Whether the engine can absorb another frame; false only once a
    /// count would overflow its machine word.
    pub fn ready(&self) -> (r: bool)
        ensures
            r == self.counters_ok(),
    {
        let r = self.counter.has_room(Protocol::Tcp) && self.counter.has_room(Protocol::Udp)
            && self.counter.has_room(Protocol::Icmp) && self.counter.has_room(Protocol::Arp);
        proof {
            if r {
                assert forall|p: Protocol| #[trigger] self.counter.can_count(p) by {
                    match p {
                        Protocol::Tcp => {},
                        Protocol::Udp => {},
                        Protocol::Icmp => {},
                        Protocol::Arp => {},
                    }
                }
            }
        }
        r
    }

    /// Handle a UDP packet: normalize it and run the rules.
    pub fn handle_udp_packet(
        &mut self,
        source: String,
        destination: String,
        ipver: IpVersion,
        packet: &[u8],
        now_ms: u64,
    ) -> (events: Vec<Event>)
        requires
            old(self).wf(),
            old(self).counter.can_count(Protocol::Udp),
        ensures
            final(self).wf(),
            udp_handled(
                *old(self),
                *final(self),
                source@,
                destination@,
                ipver,
                packet@,
                now_ms,
                events@,
            ),
    {
        let mut events: Vec<Event> = Vec::new();
        match parse_udp_bytes(packet) {
            Some(u) => {
                let iface = clone_string(&self.interface.name);
                let p = SimplePacket::new_at(
                    Protocol::Udp,
                    iface,
                    source,
                    u.source,
                    destination,
                    u.destination,
                    ipver,
                    packet.len(),
                    u.checksum,
                    u.payload,
                    now_ms,
                );
                let report = self.perform_check(&p);
                events.push(Event::Observed { packet: p, report });
            },
            None => {
                events.push(Event::Malformed { what: ProtoTag::Udp });
                proof {
                    assert(events@ =~= seq![Event::Malformed { what: ProtoTag::Udp }]);
                }
            },
        }
        events
    }

    /// Handle a TCP packet: normalize it and run the rules.
    pub fn handle_tcp_packet(
        &mut self,
        source: String,
        destination: String,
        ipver: IpVersion,
        packet: &[u8],
        now_ms: u64,
    ) -> (events: Vec<Event>)
        requires
            old(self).wf(),
            old(self).counter.can_count(Protocol::Tcp),
        ensures
            final(self).wf(),
            tcp_handled(
                *old(self),
                *final(self),
                source@,
                destination@,
                ipver,
                packet@,
                now_ms,
                events@,
            ),
    {
        let mut events: Vec<Event> = Vec::new();
        match parse_tcp_bytes(packet) {
            Some(u) => {
                let iface = clone_string(&self.interface.name);
                let p = SimplePacket::new_at(
                    Protocol::Tcp,
                    iface,
                    source,
                    u.source,
                    destination,
                    u.destination,
                    ipver,
                    packet.len(),
                    u.checksum,
                    u.payload,
                    now_ms,
                );
                let report = self.perform_check(&p);
                events.push(Event::Observed { packet: p, report });
            },
            None => {
                events.push(Event::Malformed { what: ProtoTag::Tcp });
                proof {
                    assert(events@ =~= seq![Event::Malformed { what: ProtoTag::Tcp }]);
                }
            },
        }
        events
    }

    /// Handle an ICMP packet: count it against the IPv4 literal and
    /// report one line; the rules never run on ICMP.
    pub fn handle_icmp_packet(&mut self, source: String, destination: String, packet: &[u8]) -> (events:
        Vec<Event>)
        requires
            old(self).counter.can_count(Protocol::Icmp),
        ensures
            icmp_handled(*old(self), *final(self), source@, destination@, packet@, events@),
            final(self).wf() == old(self).wf(),
            final(self).connections == old(self).connections,
    {
        let mut events: Vec<Event> = Vec::new();
        match parse_icmp_type_byte(packet) {
            None => {
                events.push(Event::Malformed { what: ProtoTag::Icmp });
                proof {
                    assert(events@ =~= seq![Event::Malformed { what: ProtoTag::Icmp }]);
                }
            },
            Some(t) => {
                if t == 0 || t == 8 {
                    match parse_icmp_echo_bytes(packet) {
                        None => {
                            events.push(Event::Malformed { what: ProtoTag::Icmp });
                            proof {
                                assert(events@ =~= seq![Event::Malformed { what: ProtoTag::Icmp }]);
                            }
                        },
                        Some((id, seq_no)) => {
                            let is_src = str_contains_str(
                                self.interface.ipv4.as_str(),
                                source.as_str(),
                            );
                            let is_dst = str_contains_str(
                                self.interface.ipv4.as_str(),
                                destination.as_str(),
                            );
                            let row = self.update_counter(Protocol::Icmp, is_src, is_dst);
                            if t == 0 {
                                events.push(
                                    Event::IcmpEchoReply {
                                        source,
                                        destination,
                                        id,
                                        seq_no,
                                        counted: row,
                                    },
                                );
                            } else {
                                events.push(
                                    Event::IcmpEchoRequest {
                                        source,
                                        destination,
                                        id,
                                        seq_no,
                                        counted: row,
                                    },
                                );
                            }
                        },
                    }
                } else {
                    let is_src = str_contains_str(self.interface.ipv4.as_str(), source.as_str());
                    let is_dst = str_contains_str(
                        self.interface.ipv4.as_str(),
                        destination.as_str(),
                    );
                    let row = self.update_counter(Protocol::Icmp, is_src, is_dst);
                    events.push(
                        Event::IcmpOther { source, destination, icmp_type: t, counted: row },
                    );
                }
            },
        }
        events
    }

    /// Handle an ICMPv6 packet: count it against the IPv6 literal and
    /// report one line.
    pub fn handle_icmpv6_packet(
        &mut self,
        source: String,
        destination: String,
        packet: &[u8],
    ) -> (events: Vec<Event>)
        requires
            old(self).counter.can_count(Protocol::Icmp),
        ensures
            icmpv6_handled(*old(self), *final(self), source@, destination@, packet@, events@),
            final(self).wf() == old(self).wf(),
            final(self).connections == old(self).connections,
    {
        let mut events: Vec<Event> = Vec::new();
        match parse_icmp_type_byte(packet) {
            None => {
                events.push(Event::Malformed { what: ProtoTag::Icmpv6 });
                proof {
                    assert(events@ =~= seq![Event::Malformed { what: ProtoTag::Icmpv6 }]);
                }
            },
            Some(t) => {
                let is_src = str_contains_str(self.interface.ipv6.as_str(), source.as_str());
                let is_dst = str_contains_str(self.interface.ipv6.as_str(), destination.as_str());
                let row = self.update_counter(Protocol::Icmp, is_src, is_dst);
                events.push(Event::Icmpv6 { source, destination, icmpv6_type: t, counted: row });
            },
        }
        events
    }

    /// Dispatch an IP payload on its next-protocol number.
    pub fn handle_transport_protocol(
        &mut self,
        source: String,
        destination: String,
        ipver: IpVersion,
        protocol: u8,
        packet: &[u8],
        now_ms: u64,
    ) -> (events: Vec<Event>)
        requires
            old(self).wf(),
            old(self).counters_ok(),
        ensures
            final(self).wf(),
            transport_handled(
                *old(self),
                *final(self),
                source@,
                destination@,
                ipver,
                protocol,
                packet@,
                now_ms,
                events@,
            ),
    {
        if protocol == 17 {
            self.handle_udp_packet(source, destination, ipver, packet, now_ms)
        } else if protocol == 6 {
            self.handle_tcp_packet(source, destination, ipver, packet, now_ms)
        } else if protocol == 1 {
            self.handle_icmp_packet(source, destination, packet)
        } else if protocol == 58 {
            self.handle_icmpv6_packet(source, destination, packet)
        } else {
            let mut events: Vec<Event> = Vec::new();
            events.push(
                Event::UnknownTransport {
                    ip_version: ipver,
                    source,
                    destination,
                    protocol,
                    length: packet.len(),
                },
            );
            events
        }
    }

    /// Handle an IPv4 packet: format the addresses and dispatch on the
    /// transport protocol.
    pub fn handle_ipv4_packet(&mut self, packet: &[u8], now_ms: u64) -> (events: Vec<Event>)
        requires
            old(self).wf(),
            old(self).counters_ok(),
        ensures
            final(self).wf(),
            ipv4_handled(*old(self), *final(self), packet@, now_ms, events@),
    {
        match parse_ipv4_bytes(packet) {
            Some(h) => {
                let source = ipv4_to_string(h.source.0, h.source.1, h.source.2, h.source.3);
                let destination = ipv4_to_string(
                    h.destination.0,
                    h.destination.1,
                    h.destination.2,
                    h.destination.3,
                );
                self.handle_transport_protocol(
                    source,
                    destination,
                    IpVersion::V4,
                    h.protocol,
                    h.payload.as_slice(),
                    now_ms,
                )
            },
            None => {
                let mut events: Vec<Event> = Vec::new();
                events.push(Event::Malformed { what: ProtoTag::Ipv4 });
                proof {
                    assert(events@ =~= seq![Event::Malformed { what: ProtoTag::Ipv4 }]);
                }
                events
            },
        }
    }

    /// Handle an IPv6 packet: format the addresses and dispatch on the
    /// next-header number.
    pub fn handle_ipv6_packet(&mut self, packet: &[u8], now_ms: u64) -> (events: Vec<Event>)
        requires
            old(self).wf(),
            old(self).counters_ok(),
        ensures
            final(self).wf(),
            ipv6_handled(*old(self), *final(self), packet@, now_ms, events@),
    {
        match parse_ipv6_bytes(packet) {
            Some(h) => {
                let source = ipv6_to_string(&h.source);
                let destination = ipv6_to_string(&h.destination);
                self.handle_transport_protocol(
                    source,
                    destination,
                    IpVersion::V6,
                    h.next_header,
                    h.payload.as_slice(),
                    now_ms,
                )
            },
            None => {
                let mut events: Vec<Event> = Vec::new();
                events.push(Event::Malformed { what: ProtoTag::Ipv6 });
                proof {
                    assert(events@ =~= seq![Event::Malformed { what: ProtoTag::Ipv6 }]);
                }
                events
            },
        }
    }

    /// Handle an ARP packet: count it against both literals and report
    /// its addresses; the MAC addresses reported are the frame's.
    pub fn handle_arp_packet(&mut self, eth: &EthFrame) -> (events: Vec<Event>)
        requires
            old(self).counter.can_count(Protocol::Arp),
            eth.src_mac@.len() == 6,
            eth.dst_mac@.len() == 6,
        ensures
            arp_handled(
                *old(self),
                *final(self),
                eth.src_mac@,
                eth.dst_mac@,
                eth.payload@,
                events@,
            ),
            final(self).wf() == old(self).wf(),
            final(self).connections == old(self).connections,
    {
        let mut events: Vec<Event> = Vec::new();
        match parse_arp_bytes(eth.payload.as_slice()) {
            None => {
                events.push(Event::Malformed { what: ProtoTag::Arp });
                proof {
                    assert(events@ =~= seq![Event::Malformed { what: ProtoTag::Arp }]);
                }
            },
            Some(a) => {
                let sip = ipv4_to_string(
                    a.sender_ip.0,
                    a.sender_ip.1,
                    a.sender_ip.2,
                    a.sender_ip.3,
                );
                let tip = ipv4_to_string(
                    a.target_ip.0,
                    a.target_ip.1,
                    a.target_ip.2,
                    a.target_ip.3,
                );
                let is_src = str_contains_str(self.interface.ipv4.as_str(), sip.as_str())
                    || str_contains_str(self.interface.ipv6.as_str(), sip.as_str());
                let is_dst = str_contains_str(self.interface.ipv4.as_str(), tip.as_str())
                    || str_contains_str(self.interface.ipv6.as_str(), tip.as_str());
                let row = self.update_counter(Protocol::Arp, is_src, is_dst);
                events.push(
                    Event::Arp {
                        sender_mac: mac_to_string(eth.src_mac.as_slice()),
                        sender_ip: sip,
                        target_mac: mac_to_string(eth.dst_mac.as_slice()),
                        target_ip: tip,
                        operation: a.operation,
                        counted: row,
                    },
                );
            },
        }
        events
    }

    /// Decode one Ethernet frame at an explicit observation time and
    /// run everything that follows from it.
    pub fn handle_ethernet_frame_at(&mut self, frame: &[u8], now_ms: u64) -> (events: Vec<Event>)
        requires
            old(self).wf(),
            old(self).counters_ok(),
        ensures
            final(self).wf(),
            ethernet_handled(*old(self), *final(self), frame@, now_ms, events@),
    {
        match parse_ethernet_bytes(frame) {
            None => {
                let mut events: Vec<Event> = Vec::new();
                events.push(Event::Malformed { what: ProtoTag::Ethernet });
                proof {
                    assert(events@ =~= seq![Event::Malformed { what: ProtoTag::Ethernet }]);
                }
                events
            },
            Some(e) => {
                if e.ethertype == 0x0800 {
                    self.handle_ipv4_packet(e.payload.as_slice(), now_ms)
                } else if e.ethertype == 0x86dd {
                    self.handle_ipv6_packet(e.payload.as_slice(), now_ms)
                } else if e.ethertype == 0x0806 {
                    self.handle_arp_packet(&e)
                } else {
                    let mut events: Vec<Event> = Vec::new();
                    events.push(
                        Event::UnknownEther {
                            source_mac: mac_to_string(e.src_mac.as_slice()),
                            destination_mac: mac_to_string(e.dst_mac.as_slice()),
                            ethertype: e.ethertype,
                            length: frame.len(),
                        },
                    );
                    events
                }
            },
        }
    }

    /// Decode one Ethernet frame, stamped with the time of the call.
    pub fn handle_ethernet_frame(&mut self, frame: &[u8]) -> (events: Vec<Event>)
        requires
            old(self).wf(),
            old(self).counters_ok(),
        ensures
            final(self).wf(),
            exists|t: u64|
                #[trigger] ethernet_handled(*old(self), *final(self), frame@, t, events@),
    {
        let raw = now_unix_millis();
        let now_ms: u64 = if raw < 0 {
            0
        } else {
            raw as u64
        };
        let events = self.handle_ethernet_frame_at(frame, now_ms);
        proof {
            assert(ethernet_handled(*old(self), *self, frame@, now_ms, events@));
        }
        events
    }
}

/// The capture loop's scratch frame length for a synthesized Ethernet
/// header around a raw IP packet.
pub const SYNTH_FRAME_LEN: usize = 2000;

/// Wrap a raw IP packet, as read from a point-to-point interface, in a
/// synthesized Ethernet frame: zero MAC addresses, the EtherType of the
/// packet's version nibble, and the packet itself, zero-padded to the
/// fixed scratch length.  A packet too short to carry an IP header, too
/// long for the scratch buffer, or of another version yields nothing.
pub fn frame_for_raw_ip(packet: &[u8]) -> (r: Option<Vec<u8>>)
    ensures
        match r {
            Some(f) => {
                &&& packet@.len() >= 20
                &&& packet@.len() <= SYNTH_FRAME_LEN - 14
                &&& (packet@[0] / 16 == 4 || packet@[0] / 16 == 6)
                &&& f@.len() == SYNTH_FRAME_LEN
                &&& forall|i: int| 0 <= i < 12 ==> f@[i] == 0
                &&& crate::parse::be16(f@, 12) == (if packet@[0] / 16 == 4 {
                    0x0800u16
                } else {
                    0x86ddu16
                })
                &&& f@.subrange(14, 14 + packet@.len() as int) == packet@
                &&& forall|i: int| 14 + packet@.len() <= i < SYNTH_FRAME_LEN ==> f@[i] == 0
            },
            None => packet@.len() < 20 || packet@.len() > SYNTH_FRAME_LEN - 14 || (packet@[0] / 16
                != 4 && packet@[0] / 16 != 6),
        },
{
    let n = packet.len();
    if n < 20 || n > SYNTH_FRAME_LEN - 14 {
        return None;
    }
    let version = packet[0] / 16;
    let ethertype: u16 = if version == 4 {
        0x0800
    } else if version == 6 {
        0x86dd
    } else {
        return None;
    };
    let mut f: Vec<u8> = Vec::new();
    let mut i: usize = 0;
    while i < 12
        invariant
            i <= 12,
            f@.len() == i,
            forall|k: int| 0 <= k < i ==> f@[k] == 0,
        decreases 12 - i,
    {
        f.push(0);
        i = i + 1;
    }
    f.push((ethertype / 256) as u8);
    f.push((ethertype % 256) as u8);
    let mut j: usize = 0;
    while j < n
        invariant
            n == packet@.len(),
            j <= n,
            f@.len() == 14 + j,
            forall|k: int| 0 <= k < 12 ==> f@[k] == 0,
            f@[12] == ethertype / 256,
            f@[13] == ethertype % 256,
            forall|k: int| 0 <= k < j ==> f@[14 + k] == packet@[k],
        decreases n - j,
    {
        f.push(packet[j]);
        j = j + 1;
    }
    while f.len() < SYNTH_FRAME_LEN
        invariant
            n == packet@.len(),
            14 + n <= f@.len() <= SYNTH_FRAME_LEN,
            forall|k: int| 0 <= k < 12 ==> f@[k] == 0,
            f@[12] == ethertype / 256,
            f@[13] == ethertype % 256,
            forall|k: int| 0 <= k < n ==> f@[14 + k] == packet@[k],
            forall|k: int| 14 + n <= k < f@.len() ==> f@[k] == 0,
        decreases SYNTH_FRAME_LEN - f@.len(),
    {
        f.push(0);
    }
    proof {
        assert(f@.subrange(14, 14 + packet@.len() as int) =~= packet@);
        assert(crate::parse::be16(f@, 12) == ethertype) by {
            assert(f@[12] == ethertype / 256 && f@[13] == ethertype % 256);
        }
    }
    Some(f)
}

} // verus!
