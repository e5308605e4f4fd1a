//! The uniform record of one observed TCP or UDP packet, the view of it
//! that every rule reads.

use vstd::prelude::*;

use crate::counter::Protocol;
use crate::port::Port;
use crate::port::spec_find;

verus! {

/// Which network layer carried the packet.
#[derive(PartialEq, Eq, Structural, Clone, Copy, Debug)]
pub enum IpVersion {
    V4,
    V6,
}

pub struct SimplePacket {
    /// The transport protocol, TCP or UDP.
    pub category: Protocol,
    pub interface: String,
    pub source_address: String,
    pub source_port: u16,
    pub source_port_description: &'static str,
    pub destination_address: String,
    pub destination_port: u16,
    pub destination_port_description: &'static str,
    pub ip_version: IpVersion,
    /// Total length of the transport packet in bytes.
    pub length: usize,
    /// The checksum the transport header reported.
    pub checksum: u16,
    pub payload: Vec<u8>,
    /// When the packet was observed, in Unix milliseconds.
    pub time: u64,
}

/// Relies on chrono's `Utc::now`: the clock reading, converted to Unix
/// milliseconds.  Nothing is promised of the value.
#[verifier::external_body]
pub(crate) fn now_unix_millis() -> (r: i64) {
    chrono::Utc::now().timestamp_millis()
}

impl SimplePacket {
    /// Build the record with an explicit observation time.  The two port
    /// descriptions are looked up in the port registry.
    pub fn new_at(
        category: Protocol,
        interface: String,
        source_address: String,
        source_port: u16,
        destination_address: String,
        destination_port: u16,
        ip_version: IpVersion,
        length: usize,
        checksum: u16,
        payload: Vec<u8>,
        time: u64,
    ) -> (r: SimplePacket)
        ensures
            r.category == category,
            r.interface == interface,
            r.source_address == source_address,
            r.source_port == source_port,
            r.source_port_description@ == spec_find(source_port).description,
            r.destination_address == destination_address,
            r.destination_port == destination_port,
            r.destination_port_description@ == spec_find(destination_port).description,
            r.ip_version == ip_version,
            r.length == length,
            r.checksum == checksum,
            r.payload == payload,
            r.time == time,
    {
        let destination_port_description = Port::find(destination_port).description;
        let source_port_description = Port::find(source_port).description;
        SimplePacket {
            category,
            interface,
            source_address,
            source_port,
            source_port_description,
            destination_address,
            destination_port,
            destination_port_description,
            ip_version,
            length,
            checksum,
            payload,
            time,
        }
    }

    /// Build the record stamped with the time of the call, read from the
    /// system clock (a reading before 1970 is clamped to zero).
    pub fn new(
        category: Protocol,
        interface: String,
        source_address: String,
        source_port: u16,
        destination_address: String,
        destination_port: u16,
        ip_version: IpVersion,
        length: usize,
        checksum: u16,
        payload: Vec<u8>,
    ) -> (r: SimplePacket)
        ensures
            r.category == category,
            r.interface == interface,
            r.source_address == source_address,
            r.source_port == source_port,
            r.source_port_description@ == spec_find(source_port).description,
            r.destination_address == destination_address,
            r.destination_port == destination_port,
            r.destination_port_description@ == spec_find(destination_port).description,
            r.ip_version == ip_version,
            r.length == length,
            r.checksum == checksum,
            r.payload == payload,
    {
        let raw = now_unix_millis();
        let time: u64 = if raw < 0 {
            0
        } else {
            raw as u64
        };
        SimplePacket::new_at(
            category,
            interface,
            source_address,
            source_port,
            destination_address,
            destination_port,
            ip_version,
            length,
            checksum,
            payload,
            time,
        )
    }
}

} // verus!
