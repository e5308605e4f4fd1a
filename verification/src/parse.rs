//! The wire-format readers: Ethernet, IPv4, IPv6, ARP, TCP, UDP, ICMP
//! and ICMPv6 headers, read from raw bytes at their standard offsets.
//!
//! A parser accepts exactly the buffers that hold the protocol's fixed
//! header, and the payload bounds follow the header's length fields,
//! clamped to the buffer.

use vstd::prelude::*;

verus! {

/// A big-endian 16-bit field at offset `i`.
pub open spec fn be16(b: Seq<u8>, i: int) -> u16 {
    (b[i] as int * 256 + b[i + 1] as int) as u16
}

/// Read a big-endian 16-bit field.
pub fn read_be16(b: &[u8], i: usize) -> (r: u16)
    requires
        i + 2 <= b@.len(),
    ensures
        r == be16(b@, i as int),
{
    (b[i] as u16) * 256 + (b[i + 1] as u16)
}

/// Copy a byte range out of a buffer.
pub fn copy_range(b: &[u8], from: usize, to: usize) -> (r: Vec<u8>)
    requires
        from <= to <= b@.len(),
    ensures
        r@ == b@.subrange(from as int, to as int),
{
    let mut r: Vec<u8> = Vec::new();
    let mut i: usize = from;
    while i < to
        invariant
            from <= i <= to <= b@.len(),
            r@ == b@.subrange(from as int, i as int),
        decreases to - i,
    {
        r.push(b[i]);
        proof {
            assert(r@ =~= b@.subrange(from as int, i + 1));
        }
        i = i + 1;
    }
    r
}

// --- Ethernet ---------------------------------------------------------

pub ghost struct EthFields {
    pub dst_mac: Seq<u8>,
    pub src_mac: Seq<u8>,
    pub ethertype: u16,
    pub payload: Seq<u8>,
}

/// An Ethernet frame: 14 header bytes, the rest is payload.
pub open spec fn parse_ethernet(b: Seq<u8>) -> Option<EthFields> {
    if b.len() >= 14 {
        Some(
            EthFields {
                dst_mac: b.subrange(0, 6),
                src_mac: b.subrange(6, 12),
                ethertype: be16(b, 12),
                payload: b.skip(14),
            },
        )
    } else {
        None
    }
}

pub struct EthFrame {
    pub dst_mac: Vec<u8>,
    pub src_mac: Vec<u8>,
    pub ethertype: u16,
    pub payload: Vec<u8>,
}

/// Read an Ethernet frame.
pub fn parse_ethernet_bytes(b: &[u8]) -> (r: Option<EthFrame>)
    ensures
        match r {
            Some(f) => parse_ethernet(b@) matches Some(g) && f.dst_mac@ == g.dst_mac && f.src_mac@
                == g.src_mac && f.ethertype == g.ethertype && f.payload@ == g.payload,
            None => parse_ethernet(b@) is None,
        },
{
    if b.len() >= 14 {
        proof {
            assert(b@.skip(14) =~= b@.subrange(14, b@.len() as int));
        }
        Some(
            EthFrame {
                dst_mac: copy_range(b, 0, 6),
                src_mac: copy_range(b, 6, 12),
                ethertype: read_be16(b, 12),
                payload: copy_range(b, 14, b.len()),
            },
        )
    } else {
        None
    }
}

// --- IPv4 -------------------------------------------------------------

pub ghost struct Ipv4Fields {
    pub source: (u8, u8, u8, u8),
    pub destination: (u8, u8, u8, u8),
    pub protocol: u8,
    pub payload: Seq<u8>,
}

/// Where an IPv4 payload starts: after the header, whose length field
/// counts 4-byte words, but never before byte 20.
pub open spec fn ipv4_payload_start(b: Seq<u8>) -> int {
    let hl = (b[0] % 16) * 4;
    if hl < 20 {
        20
    } else {
        hl as int
    }
}

/// How many payload bytes the total-length field announces.
pub open spec fn ipv4_payload_len(b: Seq<u8>) -> int {
    let hl = (b[0] % 16) * 4;
    if be16(b, 2) >= hl {
        be16(b, 2) - hl
    } else {
        0
    }
}

/// An IPv4 packet: at least the 20 fixed header bytes; the payload runs
/// from the end of the header for as many bytes as the total-length
/// field announces, clamped to the buffer.
pub open spec fn parse_ipv4(b: Seq<u8>) -> Option<Ipv4Fields> {
    if b.len() >= 20 {
        let start = ipv4_payload_start(b);
        let end_want = start + ipv4_payload_len(b);
        let end = if end_want > b.len() {
            b.len() as int
        } else {
            end_want
        };
        Some(
            Ipv4Fields {
                source: (b[12], b[13], b[14], b[15]),
                destination: (b[16], b[17], b[18], b[19]),
                protocol: b[9],
                payload: if b.len() <= start {
                    Seq::empty()
                } else {
                    b.subrange(start, end)
                },
            },
        )
    } else {
        None
    }
}

pub struct Ipv4Packet {
    pub source: (u8, u8, u8, u8),
    pub destination: (u8, u8, u8, u8),
    pub protocol: u8,
    pub payload: Vec<u8>,
}

/// Read an IPv4 packet.
pub fn parse_ipv4_bytes(b: &[u8]) -> (r: Option<Ipv4Packet>)
    ensures
        match r {
            Some(p) => parse_ipv4(b@) matches Some(g) && p.source == g.source && p.destination
                == g.destination && p.protocol == g.protocol && p.payload@ == g.payload,
            None => parse_ipv4(b@) is None,
        },
{
    if b.len() >= 20 {
        let hl: usize = ((b[0] % 16) as usize) * 4;
        let start: usize = if hl < 20 {
            20
        } else {
            hl
        };
        let total: usize = read_be16(b, 2) as usize;
        let plen: usize = if total >= hl {
            total - hl
        } else {
            0
        };
        let end: usize = if start + plen > b.len() {
            b.len()
        } else {
            start + plen
        };
        let payload: Vec<u8> = if b.len() <= start {
            Vec::new()
        } else {
            copy_range(b, start, end)
        };
        proof {
            if b@.len() <= ipv4_payload_start(b@) {
                assert(payload@ =~= Seq::<u8>::empty());
            }
        }
        Some(
            Ipv4Packet {
                source: (b[12], b[13], b[14], b[15]),
                destination: (b[16], b[17], b[18], b[19]),
                protocol: b[9],
                payload,
            },
        )
    } else {
        None
    }
}

// --- IPv6 -------------------------------------------------------------

pub ghost struct Ipv6Fields {
    pub source: Seq<u16>,
    pub destination: Seq<u16>,
    pub next_header: u8,
    pub payload: Seq<u8>,
}

/// The eight 16-bit groups of an IPv6 address at offset `off`.
pub open spec fn v6_groups(b: Seq<u8>, off: int) -> Seq<u16> {
    Seq::new(8, |k: int| be16(b, off + 2 * k))
}

/// An IPv6 packet: the fixed 40-byte header, then as many payload bytes
/// as the payload-length field announces, clamped to the buffer.
pub open spec fn parse_ipv6(b: Seq<u8>) -> Option<Ipv6Fields> {
    if b.len() >= 40 {
        let end_want = 40 + be16(b, 4) as int;
        let end = if end_want > b.len() {
            b.len() as int
        } else {
            end_want
        };
        Some(
            Ipv6Fields {
                source: v6_groups(b, 8),
                destination: v6_groups(b, 24),
                next_header: b[6],
                payload: if b.len() <= 40 {
                    Seq::empty()
                } else {
                    b.subrange(40, end)
                },
            },
        )
    } else {
        None
    }
}

pub struct Ipv6Packet {
    pub source: Vec<u16>,
    pub destination: Vec<u16>,
    pub next_header: u8,
    pub payload: Vec<u8>,
}

/// Read the eight address groups at an offset.
fn read_v6_groups(b: &[u8], off: usize) -> (r: Vec<u16>)
    requires
        off + 16 <= b@.len(),
    ensures
        r@ == v6_groups(b@, off as int),
{
    let n = b.len();
    let mut r: Vec<u16> = Vec::new();
    let mut k: usize = 0;
    while k < 8
        invariant
            n == b@.len(),
            off + 16 <= b@.len(),
            k <= 8,
            r@.len() == k,
            forall|j: int| 0 <= j < k ==> r@[j] == be16(b@, off + 2 * j),
        decreases 8 - k,
    {
        r.push(read_be16(b, off + 2 * k));
        k = k + 1;
    }
    proof {
        assert(r@ =~= v6_groups(b@, off as int));
    }
    r
}

/// Read an IPv6 packet.
pub fn parse_ipv6_bytes(b: &[u8]) -> (r: Option<Ipv6Packet>)
    ensures
        match r {
            Some(p) => parse_ipv6(b@) matches Some(g) && p.source@ == g.source && p.destination@
                == g.destination && p.next_header == g.next_header && p.payload@ == g.payload,
            None => parse_ipv6(b@) is None,
        },
{
    if b.len() >= 40 {
        let plen: usize = read_be16(b, 4) as usize;
        let end: usize = if 40 + plen > b.len() {
            b.len()
        } else {
            40 + plen
        };
        let payload: Vec<u8> = if b.len() <= 40 {
            Vec::new()
        } else {
            copy_range(b, 40, end)
        };
        proof {
            if b@.len() <= 40 {
                assert(payload@ =~= Seq::<u8>::empty());
            }
        }
        Some(
            Ipv6Packet {
                source: read_v6_groups(b, 8),
                destination: read_v6_groups(b, 24),
                next_header: b[6],
                payload,
            },
        )
    } else {
        None
    }
}

// --- ARP --------------------------------------------------------------

pub ghost struct ArpFields {
    pub operation: u16,
    pub sender_ip: (u8, u8, u8, u8),
    pub target_ip: (u8, u8, u8, u8),
}

/// An ARP packet for IPv4 over Ethernet: 28 bytes.
pub open spec fn parse_arp(b: Seq<u8>) -> Option<ArpFields> {
    if b.len() >= 28 {
        Some(
            ArpFields {
                operation: be16(b, 6),
                sender_ip: (b[14], b[15], b[16], b[17]),
                target_ip: (b[24], b[25], b[26], b[27]),
            },
        )
    } else {
        None
    }
}

pub struct ArpPacket {
    pub operation: u16,
    pub sender_ip: (u8, u8, u8, u8),
    pub target_ip: (u8, u8, u8, u8),
}

/// Read an ARP packet.
pub fn parse_arp_bytes(b: &[u8]) -> (r: Option<ArpPacket>)
    ensures
        match r {
            Some(p) => parse_arp(b@) matches Some(g) && p.operation == g.operation && p.sender_ip
                == g.sender_ip && p.target_ip == g.target_ip,
            None => parse_arp(b@) is None,
        },
{
    if b.len() >= 28 {
        Some(
            ArpPacket {
                operation: read_be16(b, 6),
                sender_ip: (b[14], b[15], b[16], b[17]),
                target_ip: (b[24], b[25], b[26], b[27]),
            },
        )
    } else {
        None
    }
}

// --- UDP --------------------------------------------------------------

pub ghost struct UdpFields {
    pub source: u16,
    pub destination: u16,
    pub checksum: u16,
    pub payload: Seq<u8>,
}

/// A UDP packet: 8 header bytes, the rest is payload.
pub open spec fn parse_udp(b: Seq<u8>) -> Option<UdpFields> {
    if b.len() >= 8 {
        Some(
            UdpFields {
                source: be16(b, 0),
                destination: be16(b, 2),
                checksum: be16(b, 6),
                payload: b.skip(8),
            },
        )
    } else {
        None
    }
}

pub struct UdpPacket {
    pub source: u16,
    pub destination: u16,
    pub checksum: u16,
    pub payload: Vec<u8>,
}

/// Read a UDP packet.
pub fn parse_udp_bytes(b: &[u8]) -> (r: Option<UdpPacket>)
    ensures
        match r {
            Some(p) => parse_udp(b@) matches Some(g) && p.source == g.source && p.destination
                == g.destination && p.checksum == g.checksum && p.payload@ == g.payload,
            None => parse_udp(b@) is None,
        },
{
    if b.len() >= 8 {
        proof {
            assert(b@.skip(8) =~= b@.subrange(8, b@.len() as int));
        }
        Some(
            UdpPacket {
                source: read_be16(b, 0),
                destination: read_be16(b, 2),
                checksum: read_be16(b, 6),
                payload: copy_range(b, 8, b.len()),
            },
        )
    } else {
        None
    }
}

// --- TCP --------------------------------------------------------------

pub ghost struct TcpFields {
    pub source: u16,
    pub destination: u16,
    pub checksum: u16,
    pub payload: Seq<u8>,
}

/// Where a TCP payload starts: after the header, whose data-offset
/// field counts 4-byte words, but never before byte 20.
pub open spec fn tcp_payload_start(b: Seq<u8>) -> int {
    let off = (b[12] / 16) * 4;
    if off > 20 {
        off as int
    } else {
        20
    }
}

/// A TCP packet: at least the 20 fixed header bytes; the payload runs
/// from the end of the header and options to the end of the buffer.
pub open spec fn parse_tcp(b: Seq<u8>) -> Option<TcpFields> {
    if b.len() >= 20 {
        let start = tcp_payload_start(b);
        Some(
            TcpFields {
                source: be16(b, 0),
                destination: be16(b, 2),
                checksum: be16(b, 16),
                payload: if b.len() <= start {
                    Seq::empty()
                } else {
                    b.skip(start)
                },
            },
        )
    } else {
        None
    }
}

pub struct TcpPacket {
    pub source: u16,
    pub destination: u16,
    pub checksum: u16,
    pub payload: Vec<u8>,
}

/// Read a TCP packet.
pub fn parse_tcp_bytes(b: &[u8]) -> (r: Option<TcpPacket>)
    ensures
        match r {
            Some(p) => parse_tcp(b@) matches Some(g) && p.source == g.source && p.destination
                == g.destination && p.checksum == g.checksum && p.payload@ == g.payload,
            None => parse_tcp(b@) is None,
        },
{
    if b.len() >= 20 {
        let off: usize = ((b[12] / 16) as usize) * 4;
        let start: usize = if off > 20 {
            off
        } else {
            20
        };
        let payload: Vec<u8> = if b.len() <= start {
            Vec::new()
        } else {
            copy_range(b, start, b.len())
        };
        proof {
            if b@.len() <= tcp_payload_start(b@) {
                assert(payload@ =~= Seq::<u8>::empty());
            } else {
                assert(payload@ =~= b@.skip(tcp_payload_start(b@)));
            }
        }
        Some(
            TcpPacket {
                source: read_be16(b, 0),
                destination: read_be16(b, 2),
                checksum: read_be16(b, 16),
                payload,
            },
        )
    } else {
        None
    }
}

// --- ICMP and ICMPv6 --------------------------------------------------

/// The type byte of an ICMP or ICMPv6 packet of at least 4 bytes.
pub open spec fn parse_icmp_type(b: Seq<u8>) -> Option<u8> {
    if b.len() >= 4 {
        Some(b[0])
    } else {
        None
    }
}

/// Read the ICMP type byte.
pub fn parse_icmp_type_byte(b: &[u8]) -> (r: Option<u8>)
    ensures
        r == parse_icmp_type(b@),
{
    if b.len() >= 4 {
        Some(b[0])
    } else {
        None
    }
}

/// The identifier and sequence number of an ICMP echo packet: 8 bytes.
pub open spec fn parse_icmp_echo(b: Seq<u8>) -> Option<(u16, u16)> {
    if b.len() >= 8 {
        Some((be16(b, 4), be16(b, 6)))
    } else {
        None
    }
}

/// Read an ICMP echo packet's identifier and sequence number.
pub fn parse_icmp_echo_bytes(b: &[u8]) -> (r: Option<(u16, u16)>)
    ensures
        r == parse_icmp_echo(b@),
{
    if b.len() >= 8 {
        Some((read_be16(b, 4), read_be16(b, 6)))
    } else {
        None
    }
}

} // verus!
