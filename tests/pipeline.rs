use sniffnet::capture::{on_capture_error, resolved_host, CaptureError, CaptureGeneration, WorkerAction};
use sniffnet::data_info::TrafficDirection;
use sniffnet::frame::{address_from_v4, address_from_v6, analyze};
use sniffnet::model::{Host, LocalDevice, ResolutionState, TrafficModel};
use sniffnet::tags::{AppProtocol, Filters, IpVersion, TransProtocol};

const LOCAL_MAC: [u8; 6] = [0x02, 0x00, 0x00, 0x00, 0x00, 0x01];
const GATEWAY_MAC: [u8; 6] = [0x02, 0x00, 0x00, 0x00, 0x00, 0xfe];

fn ethernet(dst: [u8; 6], src: [u8; 6], ether_type: u16) -> Vec<u8> {
    let mut f = Vec::new();
    f.extend_from_slice(&dst);
    f.extend_from_slice(&src);
    f.extend_from_slice(&ether_type.to_be_bytes());
    f
}

fn ipv4_frame(src: [u8; 4], dst: [u8; 4], protocol: u8, sport: u16, dport: u16, total: usize) -> Vec<u8> {
    let mut f = ethernet(GATEWAY_MAC, LOCAL_MAC, 0x0800);
    let ip_len = (total - 14) as u16;
    f.extend_from_slice(&[0x45, 0]);
    f.extend_from_slice(&ip_len.to_be_bytes());
    f.extend_from_slice(&[0, 0, 0, 0, 64, protocol, 0, 0]);
    f.extend_from_slice(&src);
    f.extend_from_slice(&dst);
    f.extend_from_slice(&sport.to_be_bytes());
    f.extend_from_slice(&dport.to_be_bytes());
    if protocol == 6 {
        f.extend_from_slice(&[0, 0, 0, 1, 0, 0, 0, 0, 0x50, 0x18, 0xff, 0xff, 0, 0, 0, 0]);
    } else {
        let udp_len = (total - 34) as u16;
        f.extend_from_slice(&udp_len.to_be_bytes());
        f.extend_from_slice(&[0, 0]);
    }
    f.resize(total, 0);
    f
}

fn ipv6_udp_frame(src: [u8; 16], dst: [u8; 16], sport: u16, dport: u16, total: usize) -> Vec<u8> {
    let mut f = ethernet(GATEWAY_MAC, LOCAL_MAC, 0x86dd);
    let payload = (total - 54) as u16;
    f.extend_from_slice(&[0x60, 0, 0, 0]);
    f.extend_from_slice(&payload.to_be_bytes());
    f.extend_from_slice(&[17, 64]);
    f.extend_from_slice(&src);
    f.extend_from_slice(&dst);
    f.extend_from_slice(&sport.to_be_bytes());
    f.extend_from_slice(&dport.to_be_bytes());
    f.extend_from_slice(&payload.to_be_bytes());
    f.extend_from_slice(&[0, 0]);
    f.resize(total, 0);
    f
}

fn local() -> LocalDevice {
    LocalDevice { addresses: vec![address_from_v4([192, 168, 1, 10])] }
}

fn remote() -> u128 {
    address_from_v4([93, 184, 216, 34])
}

fn tcp_out(total: usize) -> Vec<u8> {
    ipv4_frame([192, 168, 1, 10], [93, 184, 216, 34], 6, 50000, 443, total)
}

fn waiting_bytes(m: &TrafficModel, a: u128) -> u128 {
    let d = m.addresses_waiting_resolution.get(&a).unwrap();
    d.incoming_bytes + d.outgoing_bytes
}

#[test]
fn address_forms() {
    assert_eq!(address_from_v4([93, 184, 216, 34]), 0xffff_5db8_d822);
    let mut v6 = [0u8; 16];
    v6[0] = 0x20;
    v6[1] = 0x01;
    v6[15] = 0x01;
    assert_eq!(address_from_v6(v6), 0x2001_0000_0000_0000_0000_0000_0000_0001);
}

#[test]
fn analyze_tcp_frame() {
    let p = analyze(&tcp_out(1500)).unwrap();
    assert_eq!(p.bytes, 1500);
    assert_eq!(p.key.source, address_from_v4([192, 168, 1, 10]));
    assert_eq!(p.key.destination, remote());
    assert_eq!(p.key.source_port, 50000);
    assert_eq!(p.key.destination_port, 443);
    assert_eq!(p.key.transport, TransProtocol::TCP);
    assert_eq!(p.tags.network, IpVersion::IPv4);
    assert_eq!(p.tags.application, AppProtocol::HTTPS);
    assert_eq!(p.mac_source, LOCAL_MAC);
    assert_eq!(p.mac_destination, GATEWAY_MAC);
}

#[test]
fn analyze_ipv6_udp_frame() {
    let mut s = [0u8; 16];
    s[0] = 0xfe;
    s[1] = 0x80;
    s[15] = 2;
    let mut d = [0u8; 16];
    d[0] = 0x20;
    d[1] = 0x01;
    d[15] = 0x35;
    let p = analyze(&ipv6_udp_frame(s, d, 40000, 53, 120)).unwrap();
    assert_eq!(p.tags.network, IpVersion::IPv6);
    assert_eq!(p.tags.transport, TransProtocol::UDP);
    assert_eq!(p.tags.application, AppProtocol::DNS);
    assert_eq!(p.bytes, 120);
    assert_eq!(p.key.destination, address_from_v6(d));
}

#[test]
fn analyze_rejects_short_and_unknown_frames() {
    assert!(analyze(&[0u8; 10]).is_none());
    let mut f = ethernet(GATEWAY_MAC, LOCAL_MAC, 0x88b5);
    f.resize(64, 0xff);
    assert!(analyze(&f).is_none());
}

#[test]
fn single_outgoing_packet_then_resolution() {
    let mut m = TrafficModel::new();
    let r = m.process_frame(&tcp_out(1500), &Filters::any(), &local(), 7, Some(0));
    assert_eq!(r, Some((remote(), TrafficDirection::Outgoing)));
    assert_eq!(m.all_packets, 1);
    assert_eq!(m.all_bytes, 1500);
    assert_eq!(m.flows.len(), 1);
    assert_eq!(m.flows[0].1.direction, TrafficDirection::Outgoing);
    assert_eq!(m.flows[0].1.first_seen, 7);
    assert!(m.addresses_waiting_resolution.contains_key(&remote()));
    assert_eq!(m.traffic.outgoing_bytes, 1500);

    let host = Host { domain: "example.com".to_string(), country: "US".to_string(), asn: "AS15133".to_string() };
    assert!(m.finish_resolution(0, 0, remote(), "example.com".to_string(), host));
    assert!(m.addresses_waiting_resolution.is_empty());
    assert!(m.addresses_resolved.contains_key(&remote()));
    assert_eq!(m.hosts.len(), 1);
    let e = &m.hosts[0];
    assert_eq!(e.host.domain, "example.com");
    assert_eq!(e.host.country, "US");
    assert_eq!(e.host.asn, "AS15133");
    assert_eq!(e.stats.data.outgoing_packets, 1);
    assert_eq!(e.stats.data.outgoing_bytes, 1500);
    assert_eq!(e.stats.flow_count, 1);
}

#[test]
fn two_packets_before_resolution() {
    let mut m = TrafficModel::new();
    let first = m.process_frame(&tcp_out(500), &Filters::any(), &local(), 1, None);
    let second = m.process_frame(&tcp_out(700), &Filters::any(), &local(), 2, None);
    assert!(first.is_some());
    assert!(second.is_none());
    assert_eq!(waiting_bytes(&m, remote()), 1200);
    assert_eq!(m.flows.len(), 1);
    assert_eq!(m.flows[0].1.packets, 2);
    assert_eq!(m.flows[0].1.bytes, 1200);
    assert_eq!(m.flows[0].1.last_seen, 2);
}

#[test]
fn filtered_packet_counts_raw_only() {
    let mut m = TrafficModel::new();
    let udp_only = Filters { ip_version: None, transport: Some(TransProtocol::UDP), application: None };
    let r = m.process_frame(&tcp_out(1500), &udp_only, &local(), 1, None);
    assert!(r.is_none());
    assert_eq!(m.all_packets, 1);
    assert_eq!(m.all_bytes, 1500);
    assert!(m.flows.is_empty());
    assert!(m.app_protocols.is_empty());
    assert!(m.addresses_waiting_resolution.is_empty());
}

#[test]
fn malformed_frame_counts_raw_only() {
    let mut m = TrafficModel::new();
    let mut f = ethernet(GATEWAY_MAC, LOCAL_MAC, 0x0800);
    f.resize(64, 0xff);
    let r = m.process_frame(&f, &Filters::any(), &local(), 1, Some(3));
    assert!(r.is_none());
    assert_eq!(m.all_packets, 1);
    assert_eq!(m.all_bytes, 64);
    assert_eq!(m.dropped_packets, 3);
    assert!(m.flows.is_empty());
    assert!(m.app_protocols.is_empty());
    assert!(m.hosts.is_empty());
    assert!(m.addresses_waiting_resolution.is_empty());
}

#[test]
fn stale_worker_leaves_model_alone() {
    let mut g = CaptureGeneration::new();
    let captured = g.current();
    let mut m = TrafficModel::new();
    assert_eq!(m.on_frame(captured, g.current(), &tcp_out(100), &Filters::any(), &local(), 1, None),
        WorkerAction::Resolve(remote(), TrafficDirection::Outgoing));
    assert_eq!(g.advance(), 1);
    let a = m.on_frame(captured, g.current(), &tcp_out(100), &Filters::any(), &local(), 2, None);
    assert_eq!(a, WorkerAction::Exit);
    assert_eq!(m.all_packets, 1);
    assert_eq!(m.flows[0].1.packets, 1);
}

#[test]
fn stale_resolver_is_discarded() {
    let mut m = TrafficModel::new();
    m.process_frame(&tcp_out(100), &Filters::any(), &local(), 1, None);
    let host = Host { domain: "example.com".to_string(), country: "US".to_string(), asn: "AS15133".to_string() };
    assert!(!m.finish_resolution(0, 1, remote(), "example.com".to_string(), host));
    assert!(m.addresses_resolved.is_empty());
    assert!(m.hosts.is_empty());
    assert!(m.addresses_waiting_resolution.contains_key(&remote()));
}

#[test]
fn note_address_reports_first_sight_once() {
    let mut m = TrafficModel::new();
    let a = remote();
    let states: Vec<ResolutionState> = (0..4).map(|_| m.note_address(a, 10, TrafficDirection::Incoming)).collect();
    assert_eq!(states.iter().filter(|s| **s == ResolutionState::FirstSight).count(), 1);
    assert_eq!(states[0], ResolutionState::FirstSight);
    assert_eq!(m.addresses_waiting_resolution.get(&a).unwrap().incoming_packets, 4);
    let host = Host { domain: "h".to_string(), country: "IT".to_string(), asn: "AS1".to_string() };
    assert!(m.promote_resolution(a, "h".to_string(), host));
    assert_eq!(m.note_address(a, 10, TrafficDirection::Incoming), ResolutionState::AlreadyResolved);
    assert_eq!(m.hosts[0].stats.data.incoming_packets, 5);
    assert_eq!(m.hosts[0].stats.data.incoming_bytes, 50);
}

#[test]
fn two_addresses_fold_into_one_host() {
    let mut m = TrafficModel::new();
    let a = address_from_v4([1, 1, 1, 1]);
    let b = address_from_v4([1, 0, 0, 1]);
    m.note_address(a, 100, TrafficDirection::Outgoing);
    m.note_address(b, 50, TrafficDirection::Incoming);
    let h = || Host { domain: "one.one.one.one".to_string(), country: "AU".to_string(), asn: "AS13335".to_string() };
    assert!(m.promote_resolution(a, "one.one.one.one".to_string(), h()));
    assert!(m.promote_resolution(b, "one.one.one.one".to_string(), h()));
    assert!(!m.promote_resolution(b, "one.one.one.one".to_string(), h()));
    assert_eq!(m.hosts.len(), 1);
    assert_eq!(m.hosts[0].stats.flow_count, 2);
    assert_eq!(m.hosts[0].stats.data.outgoing_bytes, 100);
    assert_eq!(m.hosts[0].stats.data.incoming_bytes, 50);
}

#[test]
fn local_remote_still_accounted() {
    let mut m = TrafficModel::new();
    let both = LocalDevice {
        addresses: vec![address_from_v4([192, 168, 1, 10]), remote()],
    };
    let r = m.process_frame(&tcp_out(300), &Filters::any(), &both, 1, None);
    assert_eq!(r, Some((remote(), TrafficDirection::Outgoing)));
    assert_eq!(m.flows.len(), 1);
    assert_eq!(m.traffic.outgoing_packets, 1);
    assert_eq!(m.app_protocols.len(), 1);
}

#[test]
fn multicast_and_broadcast_directions() {
    let mut m = TrafficModel::new();
    let f = ipv4_frame([192, 168, 1, 10], [224, 0, 0, 251], 17, 5353, 5353, 80);
    let r = m.process_frame(&f, &Filters::any(), &local(), 1, None);
    assert_eq!(r, Some((address_from_v4([224, 0, 0, 251]), TrafficDirection::Multicast)));
    assert_eq!(m.app_protocols[0].0, AppProtocol::MDNS);
    let g = ipv4_frame([192, 168, 1, 20], [255, 255, 255, 255], 17, 68, 67, 80);
    let r2 = m.process_frame(&g, &Filters::any(), &local(), 1, None);
    assert_eq!(r2, Some((address_from_v4([255, 255, 255, 255]), TrafficDirection::Broadcast)));
    assert_eq!(m.traffic.incoming_packets, 2);
}

#[test]
fn incoming_packet_resolves_source() {
    let mut m = TrafficModel::new();
    let f = ipv4_frame([93, 184, 216, 34], [192, 168, 1, 10], 6, 443, 50000, 200);
    let r = m.process_frame(&f, &Filters::any(), &local(), 1, None);
    assert_eq!(r, Some((remote(), TrafficDirection::Incoming)));
    assert_eq!(m.traffic.incoming_bytes, 200);
}

#[test]
fn replay_is_deterministic() {
    let frames = vec![
        tcp_out(1500),
        tcp_out(60),
        ipv4_frame([192, 168, 1, 10], [8, 8, 8, 8], 17, 40000, 53, 90),
        vec![1, 2, 3],
    ];
    let mut m1 = TrafficModel::new();
    let mut m2 = TrafficModel::new();
    m1.process_frames(&frames, &Filters::any(), &local(), 5);
    m2.process_frames(&frames, &Filters::any(), &local(), 5);
    assert_eq!(m1.all_packets, 4);
    assert_eq!(m1.all_bytes, 1500 + 60 + 90 + 3);
    assert_eq!(m1.all_packets, m2.all_packets);
    assert_eq!(m1.all_bytes, m2.all_bytes);
    assert_eq!(m1.traffic, m2.traffic);
    assert_eq!(m1.app_protocols, m2.app_protocols);
    assert_eq!(m1.flows.len(), 2);
    assert_eq!(m1.addresses_waiting_resolution.len(), 2);
}

#[test]
fn dropped_count_never_decreases() {
    let mut m = TrafficModel::new();
    m.record_any(10, Some(5));
    m.record_any(10, Some(2));
    assert_eq!(m.dropped_packets, 5);
    m.record_any(10, None);
    assert_eq!(m.dropped_packets, 5);
    assert_eq!(m.all_packets, 3);
}

#[test]
fn capture_errors() {
    assert_eq!(on_capture_error(1, 1, CaptureError::Transient), WorkerAction::Continue);
    assert_eq!(on_capture_error(1, 2, CaptureError::Transient), WorkerAction::Exit);
    assert_eq!(on_capture_error(1, 1, CaptureError::Fatal), WorkerAction::Exit);
}

#[test]
fn resolver_defaults() {
    let (rdns, host) = resolved_host("10.0.0.1".to_string(), None, None, Some("AS3".to_string()));
    assert_eq!(rdns, "10.0.0.1");
    assert_eq!(host.domain, "10.0.0.1");
    assert_eq!(host.country, "unknown");
    assert_eq!(host.asn, "AS3");
    let (rdns2, host2) = resolved_host("10.0.0.1".to_string(), Some("a.b".to_string()), Some("DE".to_string()), None);
    assert_eq!(rdns2, "a.b");
    assert_eq!(host2.domain, "a.b");
    assert_eq!(host2.country, "DE");
    assert_eq!(host2.asn, "unknown");
}

#[test]
fn mac_text_is_lowercase_with_colons() {
    let t: String = sniffnet::frame::format_mac([0x02, 0x00, 0x5e, 0x10, 0xab, 0xff]).into_iter().collect();
    assert_eq!(t, "02:00:5e:10:ab:ff");
    let z: String = sniffnet::frame::format_mac([0; 6]).into_iter().collect();
    assert_eq!(z, "00:00:00:00:00:00");
}
