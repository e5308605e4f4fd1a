//! The port registry: a fixed table mapping well-known port numbers to
//! a description, a protocol tag and a status tag.

use vstd::prelude::*;

verus! {

/// What a port descriptor denotes: its number and the views of its three
/// text fields.
pub ghost struct PortInfo {
    pub num: u16,
    pub description: Seq<char>,
    pub protocol: Seq<char>,
    pub status: Seq<char>,
}

/// A port descriptor.
#[derive(Clone, Copy)]
pub struct Port {
    pub port: u16,
    pub description: &'static str,
    pub protocol: &'static str,
    pub status: &'static str,
}

impl View for Port {
    type V = PortInfo;

    open spec fn view(&self) -> PortInfo {
        PortInfo {
            num: self.port,
            description: self.description@,
            protocol: self.protocol@,
            status: self.status@,
        }
    }
}

/// The descriptor returned when no table entry holds the port.
pub open spec fn unknown_info() -> PortInfo {
    PortInfo { num: 0, description: "Unknown"@, protocol: "Unknown"@, status: "Unofficial"@ }
}

/// The registry as a sequence of descriptors, in table order.
pub open spec fn spec_table() -> Seq<PortInfo> {
    seq![
        PortInfo { num: 0, description: "Reserved"@, protocol: "UDP"@, status: "Official"@ },
        PortInfo { num: 7, description: "Echo Protocol"@, protocol: "TCP/UDP"@, status: "Official"@ },
        PortInfo { num: 20, description: "FTP data transfer"@, protocol: "TCP/UDP"@, status: "Official"@ },
        PortInfo { num: 21, description: "FTP control (command)"@, protocol: "TCP"@, status: "Official"@ },
        PortInfo { num: 22, description: "Secure Shell (SSH) — used for secure logins, file transfers (scp, sftp) and port forwarding"@, protocol: "TCP/UDP"@, status: "Official"@ },
        PortInfo { num: 23, description: "Telnet protocol—unencrypted text communications"@, protocol: "TCP/UDP"@, status: "Official"@ },
        PortInfo { num: 25, description: "Simple Mail Transfer Protocol (SMTP)—used for e-mail routing between mail servers"@, protocol: "TCP"@, status: "Official"@ },
        PortInfo { num: 42, description: "Windows Internet Name Service/ARPA Host Name Server Protocol"@, protocol: "TCP/UDP"@, status: "Unofficial/Official"@ },
        PortInfo { num: 43, description: "WHOIS protocol"@, protocol: "TCP"@, status: "Official"@ },
        PortInfo { num: 53, description: "Domain Name System (DNS)"@, protocol: "TCP/UDP"@, status: "Official"@ },
        PortInfo { num: 80, description: "Hypertext Transfer Protocol (HTTP)"@, protocol: "TCP"@, status: "Official"@ },
        PortInfo { num: 109, description: "Post Office Protocol v2 (POP2)"@, protocol: "TCP"@, status: "Official"@ },
        PortInfo { num: 110, description: "Post Office Protocol v3 (POP3)"@, protocol: "TCP"@, status: "Official"@ },
        PortInfo { num: 115, description: "Simple File Transfer Protocol (SFTP)"@, protocol: "TCP"@, status: "Official"@ },
        PortInfo { num: 118, description: "SQL (Structured Query Language) Services"@, protocol: "TCP/UDP"@, status: "Official"@ },
        PortInfo { num: 137, description: "NetBIOS NetBIOS Name Service"@, protocol: "TCP/UDP"@, status: "Official"@ },
        PortInfo { num: 139, description: "NetBIOS NetBIOS Session Service"@, protocol: "TCP/UDP"@, status: "Official"@ },
        PortInfo { num: 143, description: "Internet Message Access Protocol (IMAP)—management of email messages"@, protocol: "TCP"@, status: "Official"@ },
        PortInfo { num: 194, description: "Internet Relay Chat (IRC)"@, protocol: "TCP/UDP"@, status: "Official"@ },
        PortInfo { num: 220, description: "Internet Message Access Protocol (IMAP), version 3"@, protocol: "TCP/UDP"@, status: "Official"@ },
        PortInfo { num: 443, description: "Hypertext Transfer Protocol over TLS/SSL (HTTPS)"@, protocol: "TCP"@, status: "Official"@ },
        PortInfo { num: 445, description: "Microsoft-DS SMB file sharing"@, protocol: "TCP"@, status: "Official"@ },
        PortInfo { num: 520, description: "Routing Information Protocol (RIP)"@, protocol: "UDP"@, status: "Official"@ },
        PortInfo { num: 546, description: "DHCPv6 client"@, protocol: "TCP/UDP"@, status: "Official"@ },
        PortInfo { num: 547, description: "DHCPv6 server"@, protocol: "TCP/UDP"@, status: "Official"@ },
        PortInfo { num: 548, description: "Apple Filing Protocol (AFP) over TCP"@, protocol: "TCP"@, status: "Official"@ },
        PortInfo { num: 989, description: "FTPS Protocol (data): FTP over TLS/SSL"@, protocol: "TCP/UDP"@, status: "Official"@ },
        PortInfo { num: 990, description: "FTPS Protocol (control): FTP over TLS/SSL"@, protocol: "TCP/UDP"@, status: "Official"@ },
        PortInfo { num: 992, description: "TELNET protocol over TLS/SSL"@, protocol: "TCP/UDP"@, status: "Official"@ },
        PortInfo { num: 993, description: "Internet Message Access Protocol over TLS/SSL (IMAPS)"@, protocol: "TCP"@, status: "Official"@ },
        PortInfo { num: 995, description: "Post Office Protocol 3 over TLS/SSL (POP3S)"@, protocol: "TCP"@, status: "Official"@ },
        PortInfo { num: 1194, description: "OpenVPN"@, protocol: "TCP/UDP"@, status: "Official"@ },
        PortInfo { num: 1433, description: "MSSQL (Microsoft SQL Server database management system) Server"@, protocol: "TCP"@, status: "Official"@ },
        PortInfo { num: 1434, description: "MSSQL (Microsoft SQL Server database management system) Monitor"@, protocol: "TCP/UDP"@, status: "Official"@ },
        PortInfo { num: 1512, description: "Microsoft Windows Internet Name Service (WINS)"@, protocol: "TCP/UDP"@, status: "Official"@ },
        PortInfo { num: 1725, description: "Valve Steam Client"@, protocol: "UDP"@, status: "Unofficial"@ },
        PortInfo { num: 2083, description: "CPanel default SSL"@, protocol: "TCP"@, status: "Unofficial"@ },
        PortInfo { num: 3306, description: "MySQL database system"@, protocol: "TCP/UDP"@, status: "Official"@ },
        PortInfo { num: 5228, description: "Google Play, Android Cloud to Device Messaging Service, Google Cloud Messaging"@, protocol: "TCP"@, status: "Unofficial"@ },
        PortInfo { num: 5353, description: "Multicast DNS (mDNS)"@, protocol: "UDP"@, status: "Official"@ },
        PortInfo { num: 5900, description: "Virtual Network Computing (VNC) remote desktop protocol"@, protocol: "TCP/UDP"@, status: "Official"@ },
        PortInfo { num: 5984, description: "CouchDB database server"@, protocol: "TCP/UDP"@, status: "Official"@ },
        PortInfo { num: 6660, description: "Internet Relay Chat (IRC)"@, protocol: "TCP"@, status: "Unofficial"@ },
        PortInfo { num: 6661, description: "Internet Relay Chat (IRC)"@, protocol: "TCP"@, status: "Unofficial"@ },
        PortInfo { num: 6662, description: "Internet Relay Chat (IRC)"@, protocol: "TCP"@, status: "Unofficial"@ },
        PortInfo { num: 6663, description: "Internet Relay Chat (IRC)"@, protocol: "TCP"@, status: "Unofficial"@ },
        PortInfo { num: 6664, description: "Internet Relay Chat (IRC)"@, protocol: "TCP"@, status: "Unofficial"@ },
        PortInfo { num: 6665, description: "Internet Relay Chat (IRC)"@, protocol: "TCP"@, status: "Unofficial"@ },
        PortInfo { num: 6666, description: "Internet Relay Chat (IRC)"@, protocol: "TCP"@, status: "Unofficial"@ },
        PortInfo { num: 6667, description: "Internet Relay Chat (IRC)"@, protocol: "TCP"@, status: "Official"@ },
        PortInfo { num: 6668, description: "Internet Relay Chat (IRC)"@, protocol: "TCP"@, status: "Unofficial"@ },
        PortInfo { num: 6669, description: "Internet Relay Chat (IRC)"@, protocol: "TCP"@, status: "Unofficial"@ },
        PortInfo { num: 6679, description: "IRC SSL (Secure Internet Relay Chat)—often used"@, protocol: "TCP"@, status: "Unofficial"@ },
        PortInfo { num: 6697, description: "IRC SSL (Secure Internet Relay Chat)—often used"@, protocol: "TCP"@, status: "Unofficial"@ },
        PortInfo { num: 25565, description: "MySQL Standard MySQL port"@, protocol: "TCP/UDP"@, status: "Unofficial"@ },
        PortInfo { num: 27017, description: "mongoDB server port"@, protocol: "TCP/UDP"@, status: "Unofficial"@ },
        PortInfo { num: 33434, description: "traceroute"@, protocol: "TCP/UDP"@, status: "Official"@ },
    ]
}

/// The first descriptor of a sequence holding the port, or the unknown
/// descriptor.
pub open spec fn find_in(s: Seq<PortInfo>, p: u16) -> PortInfo
    decreases s.len(),
{
    if s.len() == 0 {
        unknown_info()
    } else if s[0].num == p {
        s[0]
    } else {
        find_in(s.skip(1), p)
    }
}

/// What `Port::find` returns for a port number.
pub open spec fn spec_find(p: u16) -> PortInfo {
    find_in(spec_table(), p)
}

proof fn lemma_find_in_hit(s: Seq<PortInfo>, p: u16, i: int)
    requires
        0 <= i < s.len(),
        s[i].num == p,
        forall|j: int| 0 <= j < i ==> s[j].num != p,
    ensures
        find_in(s, p) == s[i],
    decreases i,
{
    if i > 0 {
        lemma_find_in_hit(s.skip(1), p, i - 1);
    }
}

proof fn lemma_find_in_miss(s: Seq<PortInfo>, p: u16)
    requires
        forall|j: int| 0 <= j < s.len() ==> s[j].num != p,
    ensures
        find_in(s, p) == unknown_info(),
    decreases s.len(),
{
    if s.len() > 0 {
        lemma_find_in_miss(s.skip(1), p);
    }
}

/// Whatever the sequence, the lookup result either carries the asked-for
/// port number or is the unknown descriptor.
pub proof fn lemma_find_port_or_unknown(s: Seq<PortInfo>, p: u16)
    ensures
        find_in(s, p).num == p || find_in(s, p) == unknown_info(),
    decreases s.len(),
{
    if s.len() > 0 && s[0].num != p {
        lemma_find_port_or_unknown(s.skip(1), p);
    }
}

impl Port {
    /// Build a descriptor from its parts.
    pub fn new(port: u16, description: &'static str, protocol: &'static str, status: &'static str) -> (r: Port)
        ensures
            r.port == port,
            r.description@ == description@,
            r.protocol@ == protocol@,
            r.status@ == status@,
    {
        Port { port, description, protocol, status }
    }

    /// The descriptor used when a port is not in the table.
    pub fn unknown() -> (r: Port)
        ensures
            r@ == unknown_info(),
    {
        Port::new(0, "Unknown", "Unknown", "Unofficial")
    }

    /// The registry table, in order.
    #[verifier::rlimit(100)]
    pub fn registry() -> (r: Vec<Port>)
        ensures
            r@.len() == spec_table().len(),
            forall|i: int| 0 <= i < r@.len() ==> (#[trigger] r@[i])@ == spec_table()[i],
    {
        let mut v: Vec<Port> = Vec::new();
    v.push(Port::new(0, "Reserved", "UDP", "Official"));
    v.push(Port::new(7, "Echo Protocol", "TCP/UDP", "Official"));
    v.push(Port::new(20, "FTP data transfer", "TCP/UDP", "Official"));
    v.push(Port::new(21, "FTP control (command)", "TCP", "Official"));
    v.push(Port::new(22, "Secure Shell (SSH) — used for secure logins, file transfers (scp, sftp) and port forwarding", "TCP/UDP", "Official"));
    v.push(Port::new(23, "Telnet protocol—unencrypted text communications", "TCP/UDP", "Official"));
    v.push(Port::new(25, "Simple Mail Transfer Protocol (SMTP)—used for e-mail routing between mail servers", "TCP", "Official"));
    v.push(Port::new(42, "Windows Internet Name Service/ARPA Host Name Server Protocol", "TCP/UDP", "Unofficial/Official"));
    v.push(Port::new(43, "WHOIS protocol", "TCP", "Official"));
    v.push(Port::new(53, "Domain Name System (DNS)", "TCP/UDP", "Official"));
    v.push(Port::new(80, "Hypertext Transfer Protocol (HTTP)", "TCP", "Official"));
    v.push(Port::new(109, "Post Office Protocol v2 (POP2)", "TCP", "Official"));
    v.push(Port::new(110, "Post Office Protocol v3 (POP3)", "TCP", "Official"));
    v.push(Port::new(115, "Simple File Transfer Protocol (SFTP)", "TCP", "Official"));
    v.push(Port::new(118, "SQL (Structured Query Language) Services", "TCP/UDP", "Official"));
    v.push(Port::new(137, "NetBIOS NetBIOS Name Service", "TCP/UDP", "Official"));
    v.push(Port::new(139, "NetBIOS NetBIOS Session Service", "TCP/UDP", "Official"));
    v.push(Port::new(143, "Internet Message Access Protocol (IMAP)—management of email messages", "TCP", "Official"));
    v.push(Port::new(194, "Internet Relay Chat (IRC)", "TCP/UDP", "Official"));
    v.push(Port::new(220, "Internet Message Access Protocol (IMAP), version 3", "TCP/UDP", "Official"));
    v.push(Port::new(443, "Hypertext Transfer Protocol over TLS/SSL (HTTPS)", "TCP", "Official"));
    v.push(Port::new(445, "Microsoft-DS SMB file sharing", "TCP", "Official"));
    v.push(Port::new(520, "Routing Information Protocol (RIP)", "UDP", "Official"));
    v.push(Port::new(546, "DHCPv6 client", "TCP/UDP", "Official"));
    v.push(Port::new(547, "DHCPv6 server", "TCP/UDP", "Official"));
    v.push(Port::new(548, "Apple Filing Protocol (AFP) over TCP", "TCP", "Official"));
    v.push(Port::new(989, "FTPS Protocol (data): FTP over TLS/SSL", "TCP/UDP", "Official"));
    v.push(Port::new(990, "FTPS Protocol (control): FTP over TLS/SSL", "TCP/UDP", "Official"));
    v.push(Port::new(992, "TELNET protocol over TLS/SSL", "TCP/UDP", "Official"));
    v.push(Port::new(993, "Internet Message Access Protocol over TLS/SSL (IMAPS)", "TCP", "Official"));
    v.push(Port::new(995, "Post Office Protocol 3 over TLS/SSL (POP3S)", "TCP", "Official"));
    v.push(Port::new(1194, "OpenVPN", "TCP/UDP", "Official"));
    v.push(Port::new(1433, "MSSQL (Microsoft SQL Server database management system) Server", "TCP", "Official"));
    v.push(Port::new(1434, "MSSQL (Microsoft SQL Server database management system) Monitor", "TCP/UDP", "Official"));
    v.push(Port::new(1512, "Microsoft Windows Internet Name Service (WINS)", "TCP/UDP", "Official"));
    v.push(Port::new(1725, "Valve Steam Client", "UDP", "Unofficial"));
    v.push(Port::new(2083, "CPanel default SSL", "TCP", "Unofficial"));
    v.push(Port::new(3306, "MySQL database system", "TCP/UDP", "Official"));
    v.push(Port::new(5228, "Google Play, Android Cloud to Device Messaging Service, Google Cloud Messaging", "TCP", "Unofficial"));
    v.push(Port::new(5353, "Multicast DNS (mDNS)", "UDP", "Official"));
    v.push(Port::new(5900, "Virtual Network Computing (VNC) remote desktop protocol", "TCP/UDP", "Official"));
    v.push(Port::new(5984, "CouchDB database server", "TCP/UDP", "Official"));
    v.push(Port::new(6660, "Internet Relay Chat (IRC)", "TCP", "Unofficial"));
    v.push(Port::new(6661, "Internet Relay Chat (IRC)", "TCP", "Unofficial"));
    v.push(Port::new(6662, "Internet Relay Chat (IRC)", "TCP", "Unofficial"));
    v.push(Port::new(6663, "Internet Relay Chat (IRC)", "TCP", "Unofficial"));
    v.push(Port::new(6664, "Internet Relay Chat (IRC)", "TCP", "Unofficial"));
    v.push(Port::new(6665, "Internet Relay Chat (IRC)", "TCP", "Unofficial"));
    v.push(Port::new(6666, "Internet Relay Chat (IRC)", "TCP", "Unofficial"));
    v.push(Port::new(6667, "Internet Relay Chat (IRC)", "TCP", "Official"));
    v.push(Port::new(6668, "Internet Relay Chat (IRC)", "TCP", "Unofficial"));
    v.push(Port::new(6669, "Internet Relay Chat (IRC)", "TCP", "Unofficial"));
    v.push(Port::new(6679, "IRC SSL (Secure Internet Relay Chat)—often used", "TCP", "Unofficial"));
    v.push(Port::new(6697, "IRC SSL (Secure Internet Relay Chat)—often used", "TCP", "Unofficial"));
    v.push(Port::new(25565, "MySQL Standard MySQL port", "TCP/UDP", "Unofficial"));
    v.push(Port::new(27017, "mongoDB server port", "TCP/UDP", "Unofficial"));
    v.push(Port::new(33434, "traceroute", "TCP/UDP", "Official"));
        v
    }

    /// The first table descriptor whose port number equals `port`, or the
    /// unknown descriptor when there is none.
    pub fn find(port: u16) -> (r: Port)
        ensures
            r@ == spec_find(port),
            r@.num == port || r@ == unknown_info(),
    {
        proof {
            lemma_find_port_or_unknown(spec_table(), port);
        }
        let table = Port::registry();
        let n = table.len();
        let mut i: usize = 0;
        while i < n
            invariant
                n == table@.len(),
                i <= n,
                table@.len() == spec_table().len(),
                forall|k: int| 0 <= k < table@.len() ==> (#[trigger] table@[k])@ == spec_table()[k],
                forall|j: int| 0 <= j < i ==> spec_table()[j].num != port,
            decreases n - i,
        {
            if table[i].port == port {
                proof {
                    lemma_find_in_hit(spec_table(), port, i as int);
                }
                return table[i];
            }
            i = i + 1;
        }
        proof {
            lemma_find_in_miss(spec_table(), port);
        }
        Port::unknown()
    }
}

} // verus!
