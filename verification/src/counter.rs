//! The per-protocol tally of observed packets: a fixed four-row table of
//! (incoming, outgoing) counts.

use vstd::prelude::*;

verus! {

/// The four counted protocols.
#[derive(PartialEq, Eq, Structural, Clone, Copy, Debug)]
pub enum Protocol {
    Tcp,
    Udp,
    Icmp,
    Arp,
}

/// Incoming and outgoing packet counts per protocol.
#[derive(Clone, Copy, Debug)]
pub struct Counter {
    pub tcp: (u64, u64),
    pub udp: (u64, u64),
    pub icmp: (u64, u64),
    pub arp: (u64, u64),
}

impl Counter {
    /// The (incoming, outgoing) row of a protocol.
    pub open spec fn row(&self, p: Protocol) -> (u64, u64) {
        match p {
            Protocol::Tcp => self.tcp,
            Protocol::Udp => self.udp,
            Protocol::Icmp => self.icmp,
            Protocol::Arp => self.arp,
        }
    }

    /// The row a counter update produces: outgoing rises when the packet
    /// left this host, else incoming when it arrived here; otherwise the
    /// row stays.
    pub open spec fn spec_bump(row: (u64, u64), source: bool, destination: bool) -> (u64, u64) {
        if source {
            (row.0, (row.1 + 1) as u64)
        } else if destination {
            ((row.0 + 1) as u64, row.1)
        } else {
            row
        }
    }

    /// Room to count one more packet of a protocol.
    pub open spec fn can_count(&self, p: Protocol) -> bool {
        self.row(p).0 < u64::MAX && self.row(p).1 < u64::MAX
    }

    /// All rows start at zero.
    pub fn new() -> (r: Counter)
        ensures
            r.tcp == (0u64, 0u64),
            r.udp == (0u64, 0u64),
            r.icmp == (0u64, 0u64),
            r.arp == (0u64, 0u64),
    {
        Counter { tcp: (0, 0), udp: (0, 0), icmp: (0, 0), arp: (0, 0) }
    }

    /// Whether one more packet of this protocol can be counted; false
    /// only once a count would overflow its machine word.
    pub fn has_room(&self, p: Protocol) -> (r: bool)
        ensures
            r == self.can_count(p),
    {
        let row = self.get(p);
        row.0 < u64::MAX && row.1 < u64::MAX
    }

    /// Read the (incoming, outgoing) row of a protocol.
    pub fn get(&self, p: Protocol) -> (r: (u64, u64))
        ensures
            r == self.row(p),
    {
        match p {
            Protocol::Tcp => self.tcp,
            Protocol::Udp => self.udp,
            Protocol::Icmp => self.icmp,
            Protocol::Arp => self.arp,
        }
    }

    /// Count one packet: outgoing when its source is this host, else
    /// incoming when its destination is.  Counts never decrease.
    pub fn bump(&mut self, p: Protocol, source: bool, destination: bool) -> (r: (u64, u64))
        requires
            old(self).can_count(p),
        ensures
            final(self).row(p) == Counter::spec_bump(old(self).row(p), source, destination),
            r == final(self).row(p),
            forall|q: Protocol| q != p ==> final(self).row(q) == old(self).row(q),
            forall|q: Protocol|
                (#[trigger] final(self).row(q)).0 >= old(self).row(q).0 && final(self).row(
                    q,
                ).1 >= old(self).row(q).1,
    {
        let row = self.get(p);
        let new_row: (u64, u64) = if source {
            (row.0, row.1 + 1)
        } else if destination {
            (row.0 + 1, row.1)
        } else {
            row
        };
        match p {
            Protocol::Tcp => {
                self.tcp = new_row;
            },
            Protocol::Udp => {
                self.udp = new_row;
            },
            Protocol::Icmp => {
                self.icmp = new_row;
            },
            Protocol::Arp => {
                self.arp = new_row;
            },
        }
        new_row
    }
}

} // verus!
