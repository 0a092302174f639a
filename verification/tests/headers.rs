use csnel::net::head_struct::{
    ARPHeader, DHCPHeader, EthernetHeader, IPHeader, TCPHeader, UDPHeader,
};

fn tcp_zero() -> TCPHeader {
    TCPHeader {
        src_port: [0, 0],
        dest_port: [0, 0],
        seq_no: [0; 4],
        ack_no: [0; 4],
        data_offset: 0,
        flags: 0,
        win_size: [0; 2],
        checksum: [0; 2],
        urg_ptr: [0; 2],
    }
}

fn ip_sample() -> IPHeader {
    IPHeader {
        ver_ihl: 0x45,
        tos: 0,
        total_len: [0x00, 0x73],
        id: [0, 0],
        flags_frag: [0x40, 0x00],
        ttl: 0x40,
        protocol: 0x11,
        checksum: [0xb8, 0x61],
        src: [192, 168, 0, 1],
        dest: [192, 168, 0, 199],
    }
}

#[test]
fn header_sizes() {
    assert_eq!(EthernetHeader::size_of(), 14);
    assert_eq!(ARPHeader::size_of(), 28);
    assert_eq!(IPHeader::size_of(), 20);
    assert_eq!(TCPHeader::size_of(), 20);
    assert_eq!(UDPHeader::size_of(), 8);
    assert_eq!(DHCPHeader::size_of(), 240);
}

#[test]
fn ethernet_new_sets_type_in_network_order() {
    let h = EthernetHeader::new([1, 2, 3, 4, 5, 6], [0xFF; 6], 0x0806);
    assert_eq!(h.src, [1, 2, 3, 4, 5, 6]);
    assert_eq!(h.dest, [0xFF; 6]);
    assert_eq!(h.eth_type, [0x08, 0x06]);
    assert_eq!(h.get_type(), 0x0806);
    h.pretty_print();
}

#[test]
fn tcp_seq_and_ack_roundtrip() {
    let mut t = tcp_zero();
    t.set_seq_no(0x12345678);
    assert_eq!(t.seq_no, [0x12, 0x34, 0x56, 0x78]);
    assert_eq!(t.get_seq_no(), 0x12345678);
    t.set_ack_no(0xDEADBEEF);
    assert_eq!(t.ack_no, [0xDE, 0xAD, 0xBE, 0xEF]);
    assert_eq!(t.get_ack_no(), 0xDEADBEEF);
    assert_eq!(t.get_seq_no(), 0x12345678);
}

#[test]
fn tcp_win_and_checksum_setters() {
    let mut t = tcp_zero();
    t.set_win_size(0xFAF0);
    assert_eq!(t.win_size, [0xFA, 0xF0]);
    t.set_checksum(0x1234);
    assert_eq!(t.checksum, [0x12, 0x34]);
}

#[test]
fn tcp_data_offset_is_high_nibble() {
    let mut t = tcp_zero();
    t.data_offset = 0x50;
    assert_eq!(t.get_data_off(), 5);
    t.data_offset = 0xA3;
    assert_eq!(t.get_data_off(), 10);
}

#[test]
fn tcp_flags_set_and_read_independently() {
    let mut t = tcp_zero();
    t.set_syn(true);
    assert!(t.is_syn());
    assert!(!t.is_ack() && !t.is_fin() && !t.is_reset() && !t.is_push());
    t.set_ack(true);
    assert!(t.is_syn() && t.is_ack());
    assert_eq!(t.flags, 0x12);
    t.set_syn(false);
    assert!(!t.is_syn() && t.is_ack());
    t.set_fin(true);
    t.set_reset(true);
    t.set_push(true);
    assert_eq!(t.flags, 0x1D);
    assert!(t.is_fin() && t.is_reset() && t.is_push());
    t.set_push(false);
    assert_eq!(t.flags, 0x15);
}

#[test]
fn ip_len_roundtrip_and_protocols() {
    let mut ip = ip_sample();
    assert_eq!(ip.get_len(), 0x73);
    ip.set_len(1500);
    assert_eq!(ip.total_len, [0x05, 0xDC]);
    assert_eq!(ip.get_len(), 1500);
    ip.set_checksum(0xABCD);
    assert_eq!(ip.checksum, [0xAB, 0xCD]);
    assert!(ip.is_udp() && !ip.is_tcp());
    ip.protocol = 6;
    assert!(ip.is_tcp() && !ip.is_udp());
    ip.pretty_print();
}

#[test]
fn arp_set_oper() {
    let mut a = ARPHeader {
        htype: [0, 1],
        ptype: [8, 0],
        hw_len: 6,
        p_len: 4,
        oper: [0, 1],
        sender_hw_addr: [1; 6],
        sender_p_addr: [10, 0, 2, 2],
        receiver_hw_addr: [0; 6],
        receiver_p_addr: [10, 0, 2, 15],
    };
    a.set_oper(2);
    assert_eq!(a.oper, [0, 2]);
}

#[test]
fn udp_setters() {
    let mut u = UDPHeader { src_port: [0, 67], dest_port: [0, 68], len: [0, 0], checksum: [0, 0] };
    u.set_len(264);
    assert_eq!(u.len, [1, 8]);
    u.set_checksum(0xBEEF);
    assert_eq!(u.checksum, [0xBE, 0xEF]);
}

#[test]
fn wire_image_roundtrip() {
    let ip = ip_sample();
    let mut buf = vec![0xEEu8, 0xEE];
    ip.to_bytes(&mut buf);
    assert_eq!(buf.len(), 22);
    assert_eq!(&buf[2..6], &[0x45, 0x00, 0x00, 0x73]);
    assert_eq!(&buf[18..22], &[192, 168, 0, 199]);
    let back = IPHeader::from_bytes(&buf, 2);
    assert_eq!(back.src, ip.src);
    assert_eq!(back.dest, ip.dest);
    assert_eq!(back.checksum, ip.checksum);
    assert_eq!(back.ttl, ip.ttl);

    let mut t = tcp_zero();
    t.src_port = [0x1F, 0x90];
    t.set_seq_no(7);
    t.data_offset = 0x50;
    t.set_syn(true);
    let mut tb = Vec::new();
    t.to_bytes(&mut tb);
    assert_eq!(tb.len(), 20);
    assert_eq!(tb[0..2], [0x1F, 0x90]);
    assert_eq!(tb[4..8], [0, 0, 0, 7]);
    assert_eq!(tb[12], 0x50);
    assert_eq!(tb[13], 0x02);
    let t2 = TCPHeader::from_bytes(&tb, 0);
    assert_eq!(t2.get_seq_no(), 7);
    assert!(t2.is_syn());

    let e = EthernetHeader::new([1, 2, 3, 4, 5, 6], [7, 8, 9, 10, 11, 12], 0x0800);
    let mut eb = Vec::new();
    e.to_bytes(&mut eb);
    assert_eq!(eb, vec![7, 8, 9, 10, 11, 12, 1, 2, 3, 4, 5, 6, 8, 0]);
    let e2 = EthernetHeader::from_bytes(&eb, 0);
    assert_eq!(e2.src, e.src);
    assert_eq!(e2.get_type(), 0x0800);
}
