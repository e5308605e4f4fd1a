pub mod action;
pub mod addrfmt;
pub mod assoc;
pub mod connection;
pub mod counter;
pub mod digits;
pub mod list;
pub mod parse;
pub mod port;
pub mod simple_interface;
pub mod simple_packet;
pub mod sniffer;
pub mod strutil;
