//! Protocol tags of a decoded packet and the user's protocol filters.
use vstd::prelude::*;

verus! {

/// Network layer protocol.
#[derive(Clone, Copy, Debug, PartialEq, Eq, Hash, Structural)]
pub enum IpVersion {
    IPv4,
    IPv6,
}

/// Transport layer protocol.
#[derive(Clone, Copy, Debug, PartialEq, Eq, Hash, Structural)]
pub enum TransProtocol {
    TCP,
    UDP,
}

/// Application layer protocol, inferred from the transport ports.
#[derive(Clone, Copy, Debug, PartialEq, Eq, Hash, Structural)]
pub enum AppProtocol {
    Other,
    FTP,
    SSH,
    Telnet,
    SMTP,
    DNS,
    DHCP,
    HTTP,
    POP3,
    NTP,
    IMAP,
    SNMP,
    LDAP,
    HTTPS,
    IMAPS,
    POP3S,
    MDNS,
}

/// The protocol tags that the header analyzer attaches to a packet.
#[derive(Clone, Copy, Debug, PartialEq, Eq, Hash, Structural)]
pub struct ProtocolTags {
    pub network: IpVersion,
    pub transport: TransProtocol,
    pub application: AppProtocol,
}

/// The user's protocol filters: `None` in a dimension lets every value through.
#[derive(Clone, Copy, Debug, PartialEq, Eq, Hash, Structural)]
pub struct Filters {
    pub ip_version: Option<IpVersion>,
    pub transport: Option<TransProtocol>,
    pub application: Option<AppProtocol>,
}

/// The fixed table from a well-known port to its application protocol.
pub open spec fn port_app(port: u16) -> AppProtocol {
    if port == 20 || port == 21 {
        AppProtocol::FTP
    } else if port == 22 {
        AppProtocol::SSH
    } else if port == 23 {
        AppProtocol::Telnet
    } else if port == 25 || port == 587 {
        AppProtocol::SMTP
    } else if port == 53 {
        AppProtocol::DNS
    } else if port == 67 || port == 68 {
        AppProtocol::DHCP
    } else if port == 80 || port == 8080 {
        AppProtocol::HTTP
    } else if port == 110 {
        AppProtocol::POP3
    } else if port == 123 {
        AppProtocol::NTP
    } else if port == 143 {
        AppProtocol::IMAP
    } else if port == 161 || port == 162 {
        AppProtocol::SNMP
    } else if port == 389 {
        AppProtocol::LDAP
    } else if port == 443 {
        AppProtocol::HTTPS
    } else if port == 993 {
        AppProtocol::IMAPS
    } else if port == 995 {
        AppProtocol::POP3S
    } else if port == 5353 {
        AppProtocol::MDNS
    } else {
        AppProtocol::Other
    }
}

/// The application protocol of a port pair: the one of the well-known port,
/// and of the lower port where both are well-known.
pub open spec fn pair_app(source_port: u16, destination_port: u16) -> AppProtocol {
    let a = port_app(source_port);
    let b = port_app(destination_port);
    if a != AppProtocol::Other && b != AppProtocol::Other {
        if source_port <= destination_port {
            a
        } else {
            b
        }
    } else if a != AppProtocol::Other {
        a
    } else {
        b
    }
}

/// Looks a port up in the table of well-known ports.
pub fn app_of_port(port: u16) -> (r: AppProtocol)
    ensures
        r == port_app(port),
{
    if port == 20 || port == 21 {
        AppProtocol::FTP
    } else if port == 22 {
        AppProtocol::SSH
    } else if port == 23 {
        AppProtocol::Telnet
    } else if port == 25 || port == 587 {
        AppProtocol::SMTP
    } else if port == 53 {
        AppProtocol::DNS
    } else if port == 67 || port == 68 {
        AppProtocol::DHCP
    } else if port == 80 || port == 8080 {
        AppProtocol::HTTP
    } else if port == 110 {
        AppProtocol::POP3
    } else if port == 123 {
        AppProtocol::NTP
    } else if port == 143 {
        AppProtocol::IMAP
    } else if port == 161 || port == 162 {
        AppProtocol::SNMP
    } else if port == 389 {
        AppProtocol::LDAP
    } else if port == 443 {
        AppProtocol::HTTPS
    } else if port == 993 {
        AppProtocol::IMAPS
    } else if port == 995 {
        AppProtocol::POP3S
    } else if port == 5353 {
        AppProtocol::MDNS
    } else {
        AppProtocol::Other
    }
}

/// The application protocol of a packet with the given ports.
pub fn app_from_ports(source_port: u16, destination_port: u16) -> (r: AppProtocol)
    ensures
        r == pair_app(source_port, destination_port),
{
    let a = app_of_port(source_port);
    let b = app_of_port(destination_port);
    if a != AppProtocol::Other && b != AppProtocol::Other {
        if source_port <= destination_port {
            a
        } else {
            b
        }
    } else if a != AppProtocol::Other {
        a
    } else {
        b
    }
}

impl Filters {
    /// Filters that let every packet through.
    pub fn any() -> (r: Filters)
        ensures
            r.ip_version.is_none() && r.transport.is_none() && r.application.is_none(),
    {
        Filters { ip_version: None, transport: None, application: None }
    }

    /// Whether every enabled dimension agrees with the tags.
    pub open spec fn spec_matches(self, tags: ProtocolTags) -> bool {
        (self.ip_version.is_none() || self.ip_version == Some(tags.network))
            && (self.transport.is_none() || self.transport == Some(tags.transport))
            && (self.application.is_none() || self.application == Some(tags.application))
    }

    /// Decides whether a packet with these tags passes the filters.
    pub fn matches(&self, tags: ProtocolTags) -> (r: bool)
        ensures
            r == self.spec_matches(tags),
    {
        let ip_ok = match self.ip_version {
            None => true,
            Some(v) => v == tags.network,
        };
        let transport_ok = match self.transport {
            None => true,
            Some(t) => t == tags.transport,
        };
        let app_ok = match self.application {
            None => true,
            Some(a) => a == tags.application,
        };
        ip_ok && transport_ok && app_ok
    }
}

} // verus!
