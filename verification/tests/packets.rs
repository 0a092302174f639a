use csnel::eth_driver::rtl8139_drivers::RTL8139EthDriver;
use csnel::net::arp::arp_deal;
use csnel::net::dhcp::{dhcp_deal, dhcp_discover};
use csnel::net::head_struct::{ARPHeader, DHCPHeader, EthernetHeader, IPHeader, TCPHeader, UDPHeader};
use csnel::net::ip::{compare_ip, ip_deal, NetConfig};
use csnel::net::tcp::{compare_ports, tcp_deal, tcp_opt_deal, temp_http_response};
use csnel::net::udp::udp_deal;
use csnel::net::{deal_packet, deal_packet_is_defined, interrupt_asker, test_transmit, Action};

const MY_MAC: [u8; 6] = [0x52, 0x54, 0x00, 0x12, 0x34, 0x56];
const PEER_MAC: [u8; 6] = [0x52, 0x55, 0x0a, 0x00, 0x02, 0x02];

fn eth(eth_type: u16) -> EthernetHeader {
    EthernetHeader::new(PEER_MAC, MY_MAC, eth_type)
}

fn ip(protocol: u8, total_len: u16) -> IPHeader {
    let mut h = IPHeader {
        ver_ihl: 0x45,
        tos: 0,
        total_len: [0, 0],
        id: [0, 1],
        flags_frag: [0x40, 0],
        ttl: 64,
        protocol,
        checksum: [0, 0],
        src: [10, 0, 2, 2],
        dest: [10, 0, 2, 15],
    };
    h.set_len(total_len);
    h
}

fn tcp(flags: u8, data_offset: u8, dest_port: u16) -> TCPHeader {
    let mut t = TCPHeader {
        src_port: [0xC3, 0x50],
        dest_port: [(dest_port >> 8) as u8, dest_port as u8],
        seq_no: [0; 4],
        ack_no: [0; 4],
        data_offset: data_offset << 4,
        flags,
        win_size: [0xFA, 0xF0],
        checksum: [0, 0],
        urg_ptr: [0, 0],
    };
    t.set_seq_no(1000);
    t
}

fn arp_request() -> ARPHeader {
    ARPHeader {
        htype: [0, 1],
        ptype: [8, 0],
        hw_len: 6,
        p_len: 4,
        oper: [0, 1],
        sender_hw_addr: PEER_MAC,
        sender_p_addr: [10, 0, 2, 2],
        receiver_hw_addr: [0; 6],
        receiver_p_addr: [10, 0, 2, 15],
    }
}

fn frame_of(action: Action) -> Vec<u8> {
    match action {
        Action::Send(f) => f,
        Action::SendAndHalt(f) => f,
        _ => panic!("no frame"),
    }
}

#[test]
fn compare_ip_and_ports() {
    assert!(compare_ip([10, 0, 2, 15], [10, 0, 2, 15]));
    assert!(!compare_ip([10, 0, 2, 15], [10, 0, 2, 16]));
    assert!(compare_ports([0, 80], 80));
    assert!(compare_ports([0x1F, 0x90], 8080));
    assert!(!compare_ports([0x50, 0], 80));
    assert!(csnel::net::udp::compare_ports([0, 67], 67));
}

#[test]
fn arp_reply_swaps_roles() {
    let req = arp_request();
    let (e, a) = arp_deal(&req, &eth(0x0806), MY_MAC);
    assert_eq!(e.src, MY_MAC);
    assert_eq!(e.dest, PEER_MAC);
    assert_eq!(e.get_type(), 0x0806);
    assert_eq!(a.oper, [0, 2]);
    assert_eq!(a.sender_hw_addr, MY_MAC);
    assert_eq!(a.sender_p_addr, [10, 0, 2, 15]);
    assert_eq!(a.receiver_hw_addr, PEER_MAC);
    assert_eq!(a.receiver_p_addr, [10, 0, 2, 2]);
}

#[test]
fn syn_is_answered_with_syn_ack() {
    let options = {
        let mut o = [0u8; 40];
        o[0] = 2;
        o[1] = 4;
        o[2] = 0x05;
        o[3] = 0xB4;
        o
    };
    let action = tcp_opt_deal(&eth(0x0800), &ip(6, 44), &tcp(0x02, 6, 80), &options, 4);
    let f = frame_of(action);
    assert_eq!(f.len(), 14 + 20 + 20 + 4);
    let e = EthernetHeader::from_bytes(&f, 0);
    assert_eq!(e.dest, PEER_MAC);
    assert_eq!(e.src, MY_MAC);
    let i = IPHeader::from_bytes(&f, 14);
    assert_eq!(i.get_len(), 44);
    assert_eq!(i.src, [10, 0, 2, 15]);
    assert_eq!(i.dest, [10, 0, 2, 2]);
    assert_eq!(i.calc_checksum(true), 0);
    let t = TCPHeader::from_bytes(&f, 34);
    assert!(t.is_syn() && t.is_ack());
    assert_eq!(t.get_seq_no(), 1000 + 89809);
    assert_eq!(t.get_ack_no(), 1001);
    assert_eq!(t.src_port, [0, 80]);
    assert_eq!(t.dest_port, [0xC3, 0x50]);
    assert_eq!(&f[54..58], &[2, 4, 0x05, 0xB4]);
    assert_eq!(t.calc_checksum(true, &i, &f[54..58]), 0);
}

#[test]
fn segment_without_syn_gets_no_syn_ack() {
    let action = tcp_opt_deal(&eth(0x0800), &ip(6, 40), &tcp(0x10, 5, 80), &[0u8; 40], 0);
    assert!(matches!(action, Action::Nothing));
}

/// A driver whose receive buffer holds `bytes` at `at`, with the read offset there.
fn dev_with(at: usize, bytes: &[u8]) -> RTL8139EthDriver {
    let mut dev = RTL8139EthDriver::new(3);
    dev.rx_buffer[at..at + bytes.len()].copy_from_slice(bytes);
    dev.my_rx_ptr_offset = at as u16;
    dev
}

#[test]
fn http_get_is_answered_then_halts() {
    let req = b"GET / HTTP/1.1\r\n\r\n";
    let mut dev = dev_with(100, req);
    let action = tcp_deal(&eth(0x0800), &ip(6, 40 + req.len() as u16), &tcp(0x18, 5, 80), &mut dev, 80);
    // the read offset moves past the payload
    assert_eq!(dev.my_rx_ptr_offset as usize, 100 + req.len());
    let response = temp_http_response();
    assert_eq!(response.len(), 94);
    assert!(response.starts_with(b"HTTP/1.1 200 OK\r\n"));
    match action {
        Action::SendAndHalt(f) => {
            assert_eq!(f.len(), 54 + 94);
            assert_eq!(&f[54..], &response[..]);
            let i = IPHeader::from_bytes(&f, 14);
            assert_eq!(i.get_len(), 134);
            assert_eq!(i.calc_checksum(true), 0);
            let t = TCPHeader::from_bytes(&f, 34);
            assert!(t.is_ack());
            assert_eq!(t.get_seq_no(), 1000 + 89809);
            assert_eq!(t.get_ack_no(), 1001);
            assert_eq!(t.calc_checksum(true, &i, &response), 0);
        }
        _ => panic!("expected a response and a halt"),
    }
}

#[test]
fn other_payload_halts_without_answer() {
    let req = b"POST / HTTP/1.1\r\n";
    let mut dev = dev_with(64, req);
    let action = tcp_deal(&eth(0x0800), &ip(6, 40 + req.len() as u16), &tcp(0x18, 5, 80), &mut dev, 80);
    assert!(matches!(action, Action::Halt));
    assert_eq!(dev.my_rx_ptr_offset as usize, 64 + req.len());
}

#[test]
fn other_port_or_empty_segment_is_left_alone() {
    let mut dev = dev_with(64, b"GET /");
    let action = tcp_deal(&eth(0x0800), &ip(6, 60), &tcp(0x10, 5, 22), &mut dev, 80);
    assert!(matches!(action, Action::Nothing));
    assert_eq!(dev.my_rx_ptr_offset, 64);
    let action = tcp_deal(&eth(0x0800), &ip(6, 40), &tcp(0x10, 5, 80), &mut dev, 80);
    assert!(matches!(action, Action::Nothing));
    assert_eq!(dev.my_rx_ptr_offset, 64);
}

fn dhcp_header(yiaddr: [u8; 4], siaddr: [u8; 4]) -> DHCPHeader {
    DHCPHeader {
        op: 2,
        htype: 1,
        hlen: 6,
        hops: 0,
        xid: [0x10, 0x29, 0x38, 0x47],
        secs: [0; 2],
        flags: [0; 2],
        ciaddr: [0; 4],
        yiaddr,
        siaddr,
        giaddr: [0; 4],
        chaddr: [0; 16],
        legacy: [0; 192],
        cookie: [0x63, 0x82, 0x53, 0x63],
    }
}

fn udp_from_server() -> UDPHeader {
    UDPHeader { src_port: [0, 67], dest_port: [0, 68], len: [0, 0], checksum: [0, 0] }
}

fn dhcp_options(first: [u8; 3], rest: &[u8; 50]) -> Vec<u8> {
    let mut v = first.to_vec();
    v.extend_from_slice(rest);
    v
}

#[test]
fn dhcp_offer_is_answered_with_request() {
    let d = dhcp_header([10, 0, 2, 15], [10, 0, 2, 2]);
    let mut dev = dev_with(200, &dhcp_options([53, 1, 2], &[0xFF; 50]));
    let action = dhcp_deal(&eth(0x0800), &ip(17, 300), &udp_from_server(), &d, &mut dev, &NetConfig::new());
    // past the message type option only
    assert_eq!(dev.my_rx_ptr_offset, 203);
    let f = frame_of(action);
    assert_eq!(f.len(), 14 + 20 + 8 + 240 + 16);
    let e = EthernetHeader::from_bytes(&f, 0);
    assert_eq!(e.dest, [0xFF; 6]);
    assert_eq!(e.src, MY_MAC);
    let i = IPHeader::from_bytes(&f, 14);
    assert_eq!(i.src, [0; 4]);
    assert_eq!(i.dest, [0xFF; 4]);
    assert_eq!(i.get_len(), 284);
    assert_eq!(i.calc_checksum(true), 0);
    let u = UDPHeader::from_bytes(&f, 34);
    assert_eq!(u.src_port, [0, 68]);
    assert_eq!(u.dest_port, [0, 67]);
    assert_eq!(u.len, [1, 8]);
    assert_eq!(u.calc_checksum(true, &i, &f[42..]), 0);
    let r = DHCPHeader::from_bytes(&f, 42);
    assert_eq!(r.op, 1);
    assert_eq!(r.ciaddr, [10, 0, 2, 15]);
    assert_eq!(r.yiaddr, [0; 4]);
    assert_eq!(&f[282..], &[53, 1, 3, 50, 4, 10, 0, 2, 15, 54, 4, 10, 0, 2, 2, 0xFF]);
}

#[test]
fn dhcp_ack_sets_the_configuration() {
    let d = dhcp_header([10, 0, 2, 15], [10, 0, 2, 2]);
    let mut opts = [0u8; 50];
    let list: [u8; 27] = [
        1, 4, 255, 255, 255, 0, // subnet mask
        3, 4, 10, 0, 2, 2, // router
        12, 1, 0x41, // host name, skipped
        51, 4, 0, 1, 0x51, 0x80, // lease time
        54, 4, 10, 0, 2, 2, // server
    ];
    opts[..27].copy_from_slice(&list);
    opts[27] = 0xFF;
    let start = NetConfig::new();
    let mut dev = dev_with(200, &dhcp_options([53, 1, 5], &opts));
    let action = dhcp_deal(&eth(0x0800), &ip(17, 300), &udp_from_server(), &d, &mut dev, &start);
    // past the message type and the 27 bytes of options and the end mark
    assert_eq!(dev.my_rx_ptr_offset, 200 + 3 + 28);
    match action {
        Action::Configure(c) => {
            assert_eq!(c.my_ip, [10, 0, 2, 15]);
            assert_eq!(c.subnet_mask, [255, 255, 255, 0]);
            assert_eq!(c.router_ip, [10, 0, 2, 2]);
            assert_eq!(c.lease_time, [0, 1, 0x51, 0x80]);
            assert_eq!(c.dhcp_server, [10, 0, 2, 2]);
        }
        _ => panic!("expected a configuration"),
    }
}

#[test]
fn dhcp_ack_without_options_moves_past_the_end_mark() {
    let d = dhcp_header([10, 0, 2, 15], [10, 0, 2, 2]);
    let mut dev = dev_with(0, &dhcp_options([53, 1, 5], &[0xFF; 50]));
    let start = NetConfig::new();
    let action = dhcp_deal(&eth(0x0800), &ip(17, 300), &udp_from_server(), &d, &mut dev, &start);
    assert_eq!(dev.my_rx_ptr_offset, 4);
    match action {
        Action::Configure(c) => {
            assert_eq!(c.my_ip, [10, 0, 2, 15]);
            assert_eq!(c.router_ip, [0; 4]);
        }
        _ => panic!("expected a configuration"),
    }
}

#[test]
fn dhcp_nak_halts_and_other_messages_are_ignored() {
    let d = dhcp_header([0; 4], [0; 4]);
    let cfg = NetConfig::new();
    let mut dev = dev_with(200, &dhcp_options([53, 1, 6], &[0xFF; 50]));
    let a = dhcp_deal(&eth(0x0800), &ip(17, 300), &udp_from_server(), &d, &mut dev, &cfg);
    assert!(matches!(a, Action::Halt));
    assert_eq!(dev.my_rx_ptr_offset, 203);
    let mut dev = dev_with(200, &dhcp_options([53, 1, 7], &[0xFF; 50]));
    let a = dhcp_deal(&eth(0x0800), &ip(17, 300), &udp_from_server(), &d, &mut dev, &cfg);
    assert!(matches!(a, Action::Nothing));
    assert_eq!(dev.my_rx_ptr_offset, 203);
}

#[test]
fn dhcp_discover_message() {
    let f = dhcp_discover(MY_MAC);
    assert_eq!(f.len(), 14 + 20 + 8 + 240 + 10);
    let e = EthernetHeader::from_bytes(&f, 0);
    assert_eq!(e.dest, [0xFF; 6]);
    assert_eq!(e.src, MY_MAC);
    assert_eq!(e.get_type(), 0x0800);
    let i = IPHeader::from_bytes(&f, 14);
    assert_eq!(i.ver_ihl, 0x45);
    assert_eq!(i.get_len(), 278);
    assert_eq!(i.protocol, 0x11);
    assert_eq!(i.calc_checksum(true), 0);
    let u = UDPHeader::from_bytes(&f, 34);
    assert_eq!(u.src_port, [0, 68]);
    assert_eq!(u.dest_port, [0, 67]);
    assert_eq!(u.len, [1, 2]);
    assert_eq!(u.calc_checksum(true, &i, &f[42..]), 0);
    let d = DHCPHeader::from_bytes(&f, 42);
    assert_eq!(d.op, 1);
    assert_eq!(d.xid, [0x10, 0x29, 0x38, 0x47]);
    assert_eq!(&d.chaddr[..6], &MY_MAC);
    assert_eq!(d.cookie, [0x63, 0x82, 0x53, 0x63]);
    assert_eq!(&f[282..], &[53, 1, 1, 55, 4, 1, 3, 15, 6, 0xFF]);
}

fn udp_rest(options_starting: [u8; 3]) -> Vec<u8> {
    let mut rest = Vec::new();
    dhcp_header([10, 0, 2, 15], [10, 0, 2, 2]).to_bytes(&mut rest);
    rest.extend_from_slice(&options_starting);
    rest.extend_from_slice(&[0xFF; 50]);
    rest
}

#[test]
fn udp_passes_only_dhcp_replies_on() {
    let rest = udp_rest([53, 1, 6]);
    let cfg = NetConfig::new();
    let mut dev = dev_with(300, &rest);
    let a = udp_deal(&eth(0x0800), &ip(17, 300), &udp_from_server(), &mut dev, &cfg);
    assert!(matches!(a, Action::Halt));
    // past the DHCP message and the message type option
    assert_eq!(dev.my_rx_ptr_offset, 300 + 240 + 3);
    let other = UDPHeader { src_port: [0, 53], dest_port: [0, 68], len: [0, 0], checksum: [0, 0] };
    let mut dev = dev_with(300, &rest);
    let a = udp_deal(&eth(0x0800), &ip(17, 300), &other, &mut dev, &cfg);
    assert!(matches!(a, Action::Nothing));
    assert_eq!(dev.my_rx_ptr_offset, 300);
}

#[test]
fn ip_deal_checks_the_destination() {
    let mut rest = Vec::new();
    udp_from_server().to_bytes(&mut rest);
    rest.extend_from_slice(&udp_rest([53, 1, 6]));
    let mut cfg = NetConfig::new();
    // to the station's address: passed on, past the UDP header, the DHCP message
    // and the message type option
    cfg.my_ip = [10, 0, 2, 15];
    let mut dev = dev_with(96, &rest);
    assert!(matches!(ip_deal(&ip(17, 300), &eth(0x0800), &mut dev, &cfg, 80), Action::Halt));
    assert_eq!(dev.my_rx_ptr_offset, 96 + 8 + 240 + 3);
    // to broadcast: passed on
    let mut b = ip(17, 300);
    b.dest = [0xFF; 4];
    cfg.my_ip = [0; 4];
    let mut dev = dev_with(96, &rest);
    assert!(matches!(ip_deal(&b, &eth(0x0800), &mut dev, &cfg, 80), Action::Halt));
    assert_eq!(dev.my_rx_ptr_offset, 96 + 8 + 240 + 3);
    // to someone else: left alone
    let mut dev = dev_with(96, &rest);
    assert!(matches!(ip_deal(&ip(17, 300), &eth(0x0800), &mut dev, &cfg, 80), Action::Nothing));
    assert_eq!(dev.my_rx_ptr_offset, 96);
}

#[test]
fn ip_deal_wants_ack_before_tcp_deal() {
    let mut rest = Vec::new();
    tcp(0x08, 5, 80).to_bytes(&mut rest);
    rest.extend_from_slice(b"GET / x");
    let mut cfg = NetConfig::new();
    cfg.my_ip = [10, 0, 2, 15];
    let mut dev = dev_with(40, &rest);
    // PSH without ACK: left alone, once the TCP header is read
    assert!(matches!(ip_deal(&ip(6, 47), &eth(0x0800), &mut dev, &cfg, 80), Action::Nothing));
    assert_eq!(dev.my_rx_ptr_offset, 60);
}

#[test]
fn ip_deal_moves_past_syn_options() {
    let mut rest = Vec::new();
    tcp(0x02, 7, 80).to_bytes(&mut rest);
    rest.extend_from_slice(&[2, 4, 0x05, 0xB4, 1, 1, 4, 2]);
    let mut cfg = NetConfig::new();
    cfg.my_ip = [10, 0, 2, 15];
    let mut dev = dev_with(40, &rest);
    let f = frame_of(ip_deal(&ip(6, 48), &eth(0x0800), &mut dev, &cfg, 80));
    // past the TCP header and its eight bytes of options
    assert_eq!(dev.my_rx_ptr_offset, 40 + 20 + 8);
    assert_eq!(f.len(), 54 + 8);
    assert_eq!(&f[54..], &[2, 4, 0x05, 0xB4, 1, 1, 4, 2]);
}

fn put_packet(dev: &mut RTL8139EthDriver, at: usize, frame: &[u8]) {
    dev.rx_buffer[at] = 0x01;
    dev.rx_buffer[at + 1] = 0x00;
    let len = frame.len() as u16 + 4; // the card counts the CRC too
    dev.rx_buffer[at + 2] = len as u8;
    dev.rx_buffer[at + 3] = (len >> 8) as u8;
    dev.rx_buffer[at + 4..at + 4 + frame.len()].copy_from_slice(frame);
}

#[test]
fn deal_packet_answers_arp_and_moves_on() {
    let mut dev = RTL8139EthDriver::new(3);
    let mut frame = Vec::new();
    eth(0x0806).to_bytes(&mut frame);
    arp_request().to_bytes(&mut frame);
    put_packet(&mut dev, 0, &frame);
    assert!(deal_packet_is_defined(&dev, MY_MAC, 80));
    let out = deal_packet(&mut dev, MY_MAC, 80);
    let f = frame_of(out.action);
    assert_eq!(f.len(), 42);
    let a = ARPHeader::from_bytes(&f, 14);
    assert_eq!(a.oper, [0, 2]);
    // 4 + 42 + 4 = 50, rounded up to 52
    assert_eq!(dev.my_rx_ptr_offset, 52);
    assert_eq!(out.capr, 52 - 16);
    assert!(!out.cbr_reset);
}

#[test]
fn deal_packet_wraps_at_ring_end() {
    let mut dev = RTL8139EthDriver::new(3);
    let mut frame = Vec::new();
    eth(0x86DD).to_bytes(&mut frame);
    frame.resize(60, 0);
    put_packet(&mut dev, 8160, &frame);
    dev.my_rx_ptr_offset = 8160;
    assert!(deal_packet_is_defined(&dev, MY_MAC, 80));
    let out = deal_packet(&mut dev, MY_MAC, 80);
    assert!(matches!(out.action, Action::Nothing));
    assert_eq!(dev.my_rx_ptr_offset, 0);
    assert_eq!(out.capr, 0xFFF0);
    assert!(out.cbr_reset);
}

#[test]
fn deal_packet_answers_syn() {
    let mut dev = RTL8139EthDriver::new(3);
    let mut frame = Vec::new();
    eth(0x0800).to_bytes(&mut frame);
    ip(6, 40).to_bytes(&mut frame);
    tcp(0x02, 5, 80).to_bytes(&mut frame);
    put_packet(&mut dev, 0, &frame);
    let out = deal_packet(&mut dev, MY_MAC, 80);
    let f = frame_of(out.action);
    assert_eq!(f.len(), 54);
    let t = TCPHeader::from_bytes(&f, 34);
    assert!(t.is_syn() && t.is_ack());
    // 4 + 54 + 4 = 62, rounded up to 64
    assert_eq!(dev.my_rx_ptr_offset, 64);
}

#[test]
fn deal_packet_halts_after_http_request() {
    let mut dev = RTL8139EthDriver::new(3);
    let req = b"GET /index.html";
    let mut frame = Vec::new();
    eth(0x0800).to_bytes(&mut frame);
    ip(6, 40 + req.len() as u16).to_bytes(&mut frame);
    tcp(0x18, 5, 80).to_bytes(&mut frame);
    frame.extend_from_slice(req);
    put_packet(&mut dev, 16, &frame);
    dev.my_rx_ptr_offset = 16;
    assert!(deal_packet_is_defined(&dev, MY_MAC, 80));
    let out = deal_packet(&mut dev, MY_MAC, 80);
    assert!(matches!(out.action, Action::SendAndHalt(_)));
    // left past the status, the length, the headers and the payload
    assert_eq!(dev.my_rx_ptr_offset as usize, 16 + 58 + req.len());
}

#[test]
fn deal_packet_undefined_on_bad_length() {
    let mut dev = RTL8139EthDriver::new(3);
    let mut frame = Vec::new();
    eth(0x0800).to_bytes(&mut frame);
    ip(6, 30).to_bytes(&mut frame); // shorter than its two headers
    tcp(0x10, 5, 80).to_bytes(&mut frame);
    put_packet(&mut dev, 0, &frame);
    assert!(!deal_packet_is_defined(&dev, MY_MAC, 80));
}

#[test]
fn interrupt_status_decoding() {
    let e = interrupt_asker(0b100);
    assert_eq!((e.code, e.ack, e.rx_overflow), (1, Some(0b100), false));
    let e = interrupt_asker(0b0101_0001);
    assert_eq!((e.code, e.ack), (-2, Some(0b101_0001)));
    let e = interrupt_asker(0b1);
    assert_eq!((e.code, e.ack), (2, Some(1)));
    let e = interrupt_asker(0b1_0000);
    assert_eq!((e.code, e.ack, e.rx_overflow), (-3, Some(0b1_0000), true));
    let e = interrupt_asker(0x2000);
    assert_eq!((e.code, e.ack, e.rx_overflow), (-3, Some(0x2000), false));
    let e = interrupt_asker(0);
    assert_eq!((e.code, e.ack), (0, None));
}

#[test]
fn test_frame_is_broadcast_ipv4_header() {
    let h = test_transmit(MY_MAC);
    assert_eq!(h.src, MY_MAC);
    assert_eq!(h.dest, [0xFF; 6]);
    assert_eq!(h.eth_type, [0x08, 0x00]);
}
