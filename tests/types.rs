use sniffnet::data_info::{DataInfo, TrafficDirection};
use sniffnet::report::{Language, ReportSortType};
use sniffnet::style::{color, Color, ExtraStyles};
use sniffnet::tags::{app_from_ports, app_of_port, AppProtocol, Filters, IpVersion, ProtocolTags, TransProtocol};

#[test]
fn port_table() {
    assert_eq!(app_of_port(443), AppProtocol::HTTPS);
    assert_eq!(app_of_port(8080), AppProtocol::HTTP);
    assert_eq!(app_of_port(5353), AppProtocol::MDNS);
    assert_eq!(app_of_port(1234), AppProtocol::Other);
    assert_eq!(app_from_ports(50000, 443), AppProtocol::HTTPS);
    assert_eq!(app_from_ports(443, 50000), AppProtocol::HTTPS);
    assert_eq!(app_from_ports(443, 53), AppProtocol::DNS);
    assert_eq!(app_from_ports(1234, 5678), AppProtocol::Other);
}

#[test]
fn filters_match_enabled_dimensions() {
    let tags = ProtocolTags { network: IpVersion::IPv4, transport: TransProtocol::TCP, application: AppProtocol::HTTPS };
    assert!(Filters::any().matches(tags));
    let v6 = Filters { ip_version: Some(IpVersion::IPv6), transport: None, application: None };
    assert!(!v6.matches(tags));
    let https = Filters { ip_version: Some(IpVersion::IPv4), transport: Some(TransProtocol::TCP), application: Some(AppProtocol::HTTPS) };
    assert!(https.matches(tags));
    let dns = Filters { ip_version: None, transport: None, application: Some(AppProtocol::DNS) };
    assert!(!dns.matches(tags));
}

#[test]
fn data_info_counts() {
    let mut d = DataInfo::new_with_first_packet(100, TrafficDirection::Outgoing);
    d.add_packet(50, TrafficDirection::Incoming);
    d.add_packet(25, TrafficDirection::Broadcast);
    assert_eq!(d.outgoing_bytes, 100);
    assert_eq!(d.outgoing_packets, 1);
    assert_eq!(d.incoming_bytes, 75);
    assert_eq!(d.incoming_packets, 2);
    assert_eq!(d.total_packets(), 3);
    assert_eq!(d.total_bytes(), 175);
    let mut e = DataInfo::new();
    e.merge(&d);
    e.merge(&d);
    assert_eq!(e.total_bytes(), 350);
    let mut s = DataInfo::new_with_first_packet(u128::MAX, TrafficDirection::Incoming);
    s.add_packet(1, TrafficDirection::Incoming);
    assert_eq!(s.incoming_bytes, u128::MAX);
}

#[test]
fn report_labels() {
    assert_eq!(ReportSortType::MostRecent.get_picklist_label(Language::EN), "most recent");
    assert_eq!(ReportSortType::MostPackets.get_picklist_label(Language::IT), "più pacchetti");
    assert_eq!(ReportSortType::all_strings(Language::EN), vec!["most recent", "most bytes", "most packets"]);
}

#[test]
fn style_palettes() {
    assert_eq!(color(0x282a36, 100), Color { r: 0x28, g: 0x2a, b: 0x36, alpha_percent: 100 });
    let p = ExtraStyles::DraculaDark.to_palette();
    assert_eq!(p.secondary, Color { r: 0xff, g: 0x79, b: 0xc6, alpha_percent: 100 });
    assert_eq!(p.starred, Color { r: 0xf1, g: 0xfa, b: 0x8c, alpha_percent: 70 });
    let g = ExtraStyles::GruvboxLight.to_palette();
    assert_eq!(g.text_body, Color { r: 0x28, g: 0x28, b: 0x28, alpha_percent: 100 });
    assert_eq!(ExtraStyles::CustomToml(p).to_palette(), p);
    assert_eq!(ExtraStyles::all_styles().len(), 4);
    assert_eq!(ExtraStyles::all_styles()[1], ExtraStyles::DraculaLight);
    assert_eq!(ExtraStyles::GruvboxDark.name(), Some("Gruvbox (Night)"));
    assert_eq!(ExtraStyles::CustomToml(p).name(), None);
}
