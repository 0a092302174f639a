use csnel::net::head_struct::{IPHeader, TCPHeader, UDPHeader};
use csnel::net::checksum::fold_complement;

fn ip_sample() -> IPHeader {
    // RFC 1071-style example header: 4500 0073 0000 4000 4011 b861 c0a8 0001 c0a8 00c7
    IPHeader {
        ver_ihl: 0x45,
        tos: 0,
        total_len: [0x00, 0x73],
        id: [0, 0],
        flags_frag: [0x40, 0x00],
        ttl: 0x40,
        protocol: 0x11,
        checksum: [0xb8, 0x61],
        src: [192, 168, 0, 1],
        dest: [192, 168, 0, 199],
    }
}

#[test]
fn fold_complement_values() {
    assert_eq!(fold_complement(0), 0xFFFF);
    assert_eq!(fold_complement(0xFFFF), 0);
    assert_eq!(fold_complement(0x1_0000), 0xFFFE);
    assert_eq!(fold_complement(0x2_FFFD), 0);
    assert_eq!(fold_complement(0x1234), 0xEDCB);
}

#[test]
fn ip_checksum_known_value() {
    let ip = ip_sample();
    assert_eq!(ip.calc_checksum(false), 0xB861);
    assert_eq!(ip.calc_checksum(true), 0);
}

#[test]
fn ip_checksum_verifies_after_setting() {
    let mut ip = ip_sample();
    ip.set_len(300);
    ip.src = [10, 0, 2, 15];
    let c = ip.calc_checksum(false);
    ip.set_checksum(c);
    assert_eq!(ip.calc_checksum(true), 0);
}

#[test]
fn tcp_checksum_verifies_after_setting() {
    let mut ip = ip_sample();
    ip.protocol = 6;
    let mut t = TCPHeader {
        src_port: [0, 80],
        dest_port: [0xC3, 0x50],
        seq_no: [1, 2, 3, 4],
        ack_no: [5, 6, 7, 8],
        data_offset: 0x50,
        flags: 0x12,
        win_size: [0xFA, 0xF0],
        checksum: [0x99, 0x99],
        urg_ptr: [0, 0],
    };
    let payload = b"hello, world!";
    let c = t.calc_checksum(false, &ip, payload);
    t.set_checksum(c);
    assert_eq!(t.calc_checksum(true, &ip, payload), 0);
}

#[test]
fn tcp_checksum_leaves_out_odd_last_byte() {
    let ip = ip_sample();
    let t = TCPHeader {
        src_port: [0, 80],
        dest_port: [0, 81],
        seq_no: [0; 4],
        ack_no: [0; 4],
        data_offset: 0x50,
        flags: 0,
        win_size: [0; 2],
        checksum: [0; 2],
        urg_ptr: [0; 2],
    };
    // the length word differs, but the odd byte itself is not summed
    let a = t.calc_checksum(false, &ip, &[1, 2, 3]);
    let b = t.calc_checksum(false, &ip, &[1, 2, 9]);
    assert_eq!(a, b);
}

#[test]
fn udp_checksum_value_and_verification() {
    let ip = ip_sample();
    let mut u = UDPHeader { src_port: [0, 0x44], dest_port: [0, 0x43], len: [0, 10], checksum: [0, 0] };
    let payload = [0x12u8, 0x34];
    // pseudo: c0a8+0001+c0a8+00c7+0011+000a, header: 0044+0043+000a, payload: 1234
    let sum: u32 = 0xc0a8 + 0x0001 + 0xc0a8 + 0x00c7 + 0x0011 + 0x000a + 0x0044 + 0x0043 + 0x000a + 0x1234;
    let folded = (sum & 0xFFFF) + (sum >> 16);
    let expected = !(folded as u16);
    let c = u.calc_checksum(false, &ip, &payload);
    assert_eq!(c, expected);
    u.set_checksum(c);
    assert_eq!(u.calc_checksum(true, &ip, &payload), 0);
}
