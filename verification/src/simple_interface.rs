//! The record of the network interface being watched, and the shell
//! commands that administer it.
//!
//! The record holds what the rules read: the interface name and the
//! first IPv4 and IPv6 literals the OS reported for it (as produced,
//! possibly with a CIDR suffix).  Command construction is done here; the
//! caller runs the returned command lines through the platform shell.

use vstd::prelude::*;

verus! {

/// The platform whose administration tools are invoked.
#[derive(PartialEq, Eq, Structural, Clone, Copy, Debug)]
pub enum Os {
    Windows,
    Macos,
    Other,
}

pub struct SimpleInterface {
    pub name: String,
    pub ipv4: String,
    pub ipv6: String,
    pub mac: String,
}

/// The command that disables an interface, per platform.
pub open spec fn spec_down_command(name: Seq<char>, os: Os) -> Seq<char> {
    match os {
        Os::Windows => "netsh interface set interface \""@ + name + "\" admin=disable"@,
        Os::Macos => "sudo ifconfig "@ + name + " down"@,
        Os::Other => "sudo ip link set dev "@ + name + " down"@,
    }
}

/// The command that enables an interface, per platform.
pub open spec fn spec_up_command(name: Seq<char>, os: Os) -> Seq<char> {
    match os {
        Os::Windows => "netsh interface set interface \""@ + name + "\" admin=enable"@,
        Os::Macos => "sudo ifconfig "@ + name + " up"@,
        Os::Other => "sudo ip link set dev "@ + name + " up"@,
    }
}

/// The commands that move an interface to a static IPv4 configuration,
/// per platform; every platform but the generic one needs a single
/// command.
pub open spec fn spec_setup_commands(
    name: Seq<char>,
    ip: Seq<char>,
    netmask: Seq<char>,
    gateway: Seq<char>,
    os: Os,
) -> Seq<Seq<char>> {
    match os {
        Os::Windows => seq![
            "netsh interface ipv4 set address name=\""@ + name + "\" static "@ + ip + " "@
                + netmask + " "@ + gateway,
        ],
        Os::Macos => seq![
            "sudo networksetup -setmanual \""@ + name + "\" "@ + ip + " "@ + netmask + " "@
                + gateway,
        ],
        Os::Other => seq![
            "sudo ifconfig "@ + name + " "@ + ip + " netmask "@ + netmask,
            "sudo route add default gw "@ + gateway + " "@ + name,
        ],
    }
}

impl SimpleInterface {
    /// An interface is eligible when the OS reports it administratively
    /// up and it carries at least two IP literals (an IPv4 and an IPv6
    /// slot).
    pub fn is_up(admin_up: bool, ip_count: usize) -> (r: bool)
        ensures
            r == (admin_up && ip_count > 1),
    {
        admin_up && ip_count > 1
    }

    /// Build the record from what the OS reported.  An interface that is
    /// not eligible yields nothing; the caller treats that as fatal.
    pub fn new(name: String, ips: Vec<String>, mac: String, admin_up: bool) -> (r: Option<
        SimpleInterface,
    >)
        ensures
            match r {
                Some(i) => {
                    &&& admin_up
                    &&& ips@.len() > 1
                    &&& i.name == name
                    &&& i.ipv4@ == ips@[0]@
                    &&& i.ipv6@ == ips@[1]@
                    &&& i.mac == mac
                },
                None => !(admin_up && ips@.len() > 1),
            },
    {
        if SimpleInterface::is_up(admin_up, ips.len()) {
            let ipv4 = crate::strutil::clone_string(&ips[0]);
            let ipv6 = crate::strutil::clone_string(&ips[1]);
            Some(SimpleInterface { name, ipv4, ipv6, mac })
        } else {
            None
        }
    }

    /// The shell command that shuts this interface down.
    pub fn down_command(&self, os: Os) -> (r: String)
        ensures
            r@ == spec_down_command(self.name@, os),
    {
        match os {
            Os::Windows => {
                let mut s = "netsh interface set interface \"".to_owned();
                s.append(self.name.as_str());
                s.append("\" admin=disable");
                s
            },
            Os::Macos => {
                let mut s = "sudo ifconfig ".to_owned();
                s.append(self.name.as_str());
                s.append(" down");
                s
            },
            Os::Other => {
                let mut s = "sudo ip link set dev ".to_owned();
                s.append(self.name.as_str());
                s.append(" down");
                s
            },
        }
    }

    /// The shell command that brings this interface up.
    pub fn up_command(&self, os: Os) -> (r: String)
        ensures
            r@ == spec_up_command(self.name@, os),
    {
        match os {
            Os::Windows => {
                let mut s = "netsh interface set interface \"".to_owned();
                s.append(self.name.as_str());
                s.append("\" admin=enable");
                s
            },
            Os::Macos => {
                let mut s = "sudo ifconfig ".to_owned();
                s.append(self.name.as_str());
                s.append(" up");
                s
            },
            Os::Other => {
                let mut s = "sudo ip link set dev ".to_owned();
                s.append(self.name.as_str());
                s.append(" up");
                s
            },
        }
    }

    /// Move the interface onto a static IPv4 configuration: when the new
    /// address differs from the recorded one, the platform commands are
    /// returned for the caller to run; the recorded IPv4 literal is set
    /// to the new address either way.
    pub fn setup(&mut self, ip: &str, netmask: &str, gateway: &str, os: Os) -> (cmds: Vec<String>)
        ensures
            final(self).name == old(self).name,
            final(self).ipv6 == old(self).ipv6,
            final(self).mac == old(self).mac,
            final(self).ipv4@ == ip@,
            old(self).ipv4@ != ip@ ==> cmds@.map_values(|c: String| c@) == spec_setup_commands(
                old(self).name@,
                ip@,
                netmask@,
                gateway@,
                os,
            ),
            old(self).ipv4@ == ip@ ==> cmds@.len() == 0,
    {
        let mut cmds: Vec<String> = Vec::new();
        if !crate::strutil::str_eq(self.ipv4.as_str(), ip) {
            match os {
                Os::Windows => {
                    let mut s = "netsh interface ipv4 set address name=\"".to_owned();
                    s.append(self.name.as_str());
                    s.append("\" static ");
                    s.append(ip);
                    s.append(" ");
                    s.append(netmask);
                    s.append(" ");
                    s.append(gateway);
                    cmds.push(s);
                },
                Os::Macos => {
                    let mut s = "sudo networksetup -setmanual \"".to_owned();
                    s.append(self.name.as_str());
                    s.append("\" ");
                    s.append(ip);
                    s.append(" ");
                    s.append(netmask);
                    s.append(" ");
                    s.append(gateway);
                    cmds.push(s);
                },
                Os::Other => {
                    let mut s = "sudo ifconfig ".to_owned();
                    s.append(self.name.as_str());
                    s.append(" ");
                    s.append(ip);
                    s.append(" netmask ");
                    s.append(netmask);
                    cmds.push(s);
                    let mut s2 = "sudo route add default gw ".to_owned();
                    s2.append(gateway);
                    s2.append(" ");
                    s2.append(self.name.as_str());
                    cmds.push(s2);
                },
            }
            proof {
                assert(cmds@.map_values(|c: String| c@) =~= spec_setup_commands(
                    old(self).name@,
                    ip@,
                    netmask@,
                    gateway@,
                    os,
                ));
            }
        }
        self.ipv4 = ip.to_owned();
        cmds
    }
}

} // verus!
