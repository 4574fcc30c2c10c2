//! Header analysis: from the bytes of an Ethernet II frame to a connection key,
//! protocol tags and a byte count.
use vstd::prelude::*;

use etherparse::{IpHeader, TransportHeader};

use crate::tags::{app_from_ports, pair_app, AppProtocol, IpVersion, ProtocolTags, TransProtocol};

verus! {

/// Network layer addresses of a frame, as they stand in its IP header.
#[derive(Clone, Copy, Debug, PartialEq, Eq)]
pub enum NetAddresses {
    V4([u8; 4], [u8; 4]),
    V6([u8; 16], [u8; 16]),
}

/// The headers of an Ethernet II frame, reduced to what the accounting reads:
/// source and destination MAC, source and destination IP addresses, and the
/// transport protocol with source and destination ports.
#[derive(Clone, Copy, Debug, PartialEq, Eq)]
pub struct FrameHeaders {
    pub link: Option<([u8; 6], [u8; 6])>,
    pub net: Option<NetAddresses>,
    pub ports: Option<(TransProtocol, u16, u16)>,
}

/// What the Ethernet II decoder makes of a frame: `None` where it rejects it.
pub uninterp spec fn decoded_headers(frame: Seq<u8>) -> Option<FrameHeaders>;

/// Relies on `etherparse::PacketHeaders::from_ethernet_slice`: decodes the
/// Ethernet II, VLAN, IP and transport headers, depends on the bytes alone,
/// and fails on a frame shorter than an Ethernet II header (14 bytes).
#[verifier::external_body]
fn decode_frame(frame: &[u8]) -> (r: Option<FrameHeaders>)
    ensures
        r == decoded_headers(frame@),
        frame@.len() < 14 ==> r.is_none(),
{
    let h = etherparse::PacketHeaders::from_ethernet_slice(frame).ok()?;
    let net = match h.ip {
        Some(IpHeader::Version4(a, _)) => Some(NetAddresses::V4(a.source, a.destination)),
        Some(IpHeader::Version6(a, _)) => Some(NetAddresses::V6(a.source, a.destination)),
        None => None,
    };
    let ports = match h.transport {
        Some(TransportHeader::Tcp(t)) => Some((TransProtocol::TCP, t.source_port, t.destination_port)),
        Some(TransportHeader::Udp(u)) => Some((TransProtocol::UDP, u.source_port, u.destination_port)),
        _ => None,
    };
    Some(FrameHeaders { link: h.link.map(|l| (l.source, l.destination)), net, ports })
}

/// Identity of a connection. Addresses are 128-bit numbers: an IPv6 address
/// as it is, an IPv4 address in its IPv4-mapped IPv6 form (`::ffff:a.b.c.d`).
#[derive(Clone, Copy, Debug, PartialEq, Eq, Hash, Structural)]
pub struct ConnectionKey {
    pub source: u128,
    pub source_port: u16,
    pub destination: u128,
    pub destination_port: u16,
    pub transport: TransProtocol,
}

/// What the header analyzer extracts from one frame.
#[derive(Clone, Copy, Debug, PartialEq, Eq)]
pub struct PacketInfo {
    pub key: ConnectionKey,
    pub tags: ProtocolTags,
    pub bytes: u128,
    pub mac_source: [u8; 6],
    pub mac_destination: [u8; 6],
}

/// `256` to the power `n`.
pub open spec fn byte_base_pow(n: nat) -> int
    decreases n,
{
    if n == 0 {
        1
    } else {
        256 * byte_base_pow((n - 1) as nat)
    }
}

/// The number that the bytes spell, most significant first.
pub open spec fn be_value(s: Seq<u8>) -> int
    decreases s.len(),
{
    if s.len() == 0 {
        0
    } else {
        be_value(s.drop_last()) * 256 + s.last()
    }
}

/// The offset of the IPv4-mapped block `::ffff:0:0/96`.
pub open spec fn v4_mapped_base() -> int {
    0xffff_0000_0000
}

/// The 128-bit address of an IPv4 address.
pub open spec fn v4_address(a: Seq<u8>) -> int {
    v4_mapped_base() + be_value(a)
}

proof fn lemma_be_value_bound(s: Seq<u8>)
    ensures
        0 <= be_value(s) < byte_base_pow(s.len()),
    decreases s.len(),
{
    if s.len() > 0 {
        lemma_be_value_bound(s.drop_last());
        let p = byte_base_pow((s.len() - 1) as nat);
        let v = be_value(s.drop_last());
        let b = s.last() as int;
        assert(0 <= v * 256 + b < p * 256) by (nonlinear_arith)
            requires
                0 <= v < p,
                0 <= b < 256,
        ;
    }
}

/// Reads `n` bytes of `a`, most significant first.
fn be_prefix(a: &[u8], n: usize) -> (r: u128)
    requires
        n <= a@.len(),
        n <= 16,
    ensures
        r == be_value(a@.take(n as int)),
{
    proof {
        reveal_with_fuel(byte_base_pow, 17);
    }
    let mut acc: u128 = 0;
    let mut i: usize = 0;
    while i < n
        invariant
            i <= n,
            n <= a@.len(),
            n <= 16,
            acc == be_value(a@.take(i as int)),
            byte_base_pow(16) == 0x1_0000_0000_0000_0000_0000_0000_0000_0000,
        decreases n - i,
    {
        let ghost prefix = a@.take(i as int);
        let ghost next = a@.take(i as int + 1);
        assert(next.drop_last() =~= prefix);
        assert(next.last() == a@[i as int]);
        proof {
            lemma_be_value_bound(next);
            lemma_pow_mono(next.len(), 16);
        }
        acc = acc * 256 + a[i] as u128;
        i = i + 1;
    }
    acc
}

proof fn lemma_pow_mono(m: nat, n: nat)
    requires
        m <= n,
    ensures
        byte_base_pow(m) <= byte_base_pow(n),
        byte_base_pow(m) > 0,
    decreases n,
{
    if n > 0 {
        if m < n {
            lemma_pow_mono(m, (n - 1) as nat);
        } else if m > 0 {
            lemma_pow_mono((m - 1) as nat, (n - 1) as nat);
        }
    }
}

/// The 128-bit form of an IPv4 address.
pub fn address_from_v4(a: [u8; 4]) -> (r: u128)
    ensures
        r == v4_address(a@),
{
    assert(a@.take(4) =~= a@);
    let v = be_prefix(&a, 4);
    proof {
        lemma_be_value_bound(a@);
        reveal_with_fuel(byte_base_pow, 5);
    }
    0xffff_0000_0000u128 + v
}

/// The 128-bit form of an IPv6 address.
pub fn address_from_v6(a: [u8; 16]) -> (r: u128)
    ensures
        r == be_value(a@),
{
    assert(a@.take(16) =~= a@);
    be_prefix(&a, 16)
}

/// The 128-bit source and destination addresses.
pub open spec fn spec_addresses(net: NetAddresses) -> (int, int) {
    match net {
        NetAddresses::V4(s, d) => (v4_address(s@), v4_address(d@)),
        NetAddresses::V6(s, d) => (be_value(s@), be_value(d@)),
    }
}

/// What the analyzer makes of decoded headers and a frame of `len` bytes:
/// a packet needs Ethernet, IP and TCP or UDP headers, and counts all `len` bytes.
pub open spec fn spec_analyze(h: FrameHeaders, len: nat) -> Option<PacketInfo> {
    match (h.link, h.net, h.ports) {
        (Some((ms, md)), Some(net), Some((t, sp, dp))) => {
            let (s, d) = spec_addresses(net);
            Some(PacketInfo {
                key: ConnectionKey {
                    source: s as u128,
                    source_port: sp,
                    destination: d as u128,
                    destination_port: dp,
                    transport: t,
                },
                tags: ProtocolTags {
                    network: match net {
                        NetAddresses::V4(..) => IpVersion::IPv4,
                        NetAddresses::V6(..) => IpVersion::IPv6,
                    },
                    transport: t,
                    application: pair_app(sp, dp),
                },
                bytes: len as u128,
                mac_source: ms,
                mac_destination: md,
            })
        },
        _ => None,
    }
}

/// What the analyzer makes of a frame.
pub open spec fn spec_analyze_frame(frame: Seq<u8>) -> Option<PacketInfo> {
    match decoded_headers(frame) {
        Some(h) => spec_analyze(h, frame.len()),
        None => None,
    }
}

/// Turns decoded headers of a frame of `len` bytes into a packet record.
pub fn analyze_headers(h: &FrameHeaders, len: usize) -> (r: Option<PacketInfo>)
    ensures
        r == spec_analyze(*h, len as nat),
{
    match (h.link, h.net, h.ports) {
        (Some((ms, md)), Some(net), Some((t, sp, dp))) => {
            let (s, d, network) = match net {
                NetAddresses::V4(s, d) => (address_from_v4(s), address_from_v4(d), IpVersion::IPv4),
                NetAddresses::V6(s, d) => (address_from_v6(s), address_from_v6(d), IpVersion::IPv6),
            };
            Some(PacketInfo {
                key: ConnectionKey {
                    source: s,
                    source_port: sp,
                    destination: d,
                    destination_port: dp,
                    transport: t,
                },
                tags: ProtocolTags { network, transport: t, application: app_from_ports(sp, dp) },
                bytes: len as u128,
                mac_source: ms,
                mac_destination: md,
            })
        },
        _ => None,
    }
}

/// The lowercase hexadecimal digit of `n`.
pub open spec fn hex_digit(n: u8) -> char {
    if n < 10 {
        ('0' as u8 + n) as char
    } else {
        ('a' as u8 + n - 10) as char
    }
}

/// The canonical text of a MAC address: six lowercase two-digit hexadecimal
/// numbers joined by colons.
pub open spec fn mac_text(m: Seq<u8>) -> Seq<char> {
    Seq::new(
        17,
        |i: int|
            if i % 3 == 2 {
                ':'
            } else if i % 3 == 0 {
                hex_digit(m[i / 3] / 16)
            } else {
                hex_digit(m[i / 3] % 16)
            },
    )
}

fn hex_char(n: u8) -> (r: char)
    requires
        n < 16,
    ensures
        r == hex_digit(n),
{
    if n < 10 {
        ('0' as u8 + n) as char
    } else {
        ('a' as u8 + n - 10) as char
    }
}

/// Writes a MAC address as its canonical text, for example `02:00:5e:10:00:ff`.
pub fn format_mac(mac: [u8; 6]) -> (r: Vec<char>)
    ensures
        r@ == mac_text(mac@),
{
    let mut r: Vec<char> = Vec::new();
    let mut i: usize = 0;
    while i < 6
        invariant
            i <= 6,
            r@.len() == if i == 0 { 0 } else { 3 * i - 1 },
            forall|j: int| 0 <= j < r@.len() ==> r@[j] == #[trigger] mac_text(mac@)[j],
        decreases 6 - i,
    {
        if i > 0 {
            r.push(':');
        }
        let b = mac[i];
        r.push(hex_char(b / 16));
        r.push(hex_char(b % 16));
        i = i + 1;
    }
    assert(r@ =~= mac_text(mac@));
    r
}

/// Decodes a frame and analyzes its headers: `None` for a malformed frame or
/// one without IP and TCP or UDP.
pub fn analyze(frame: &[u8]) -> (r: Option<PacketInfo>)
    ensures
        r == spec_analyze_frame(frame@),
        frame@.len() < 14 ==> r.is_none(),
{
    match decode_frame(frame) {
        Some(h) => analyze_headers(&h, frame.len()),
        None => None,
    }
}

} // verus!
