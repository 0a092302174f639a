//! TCP: the segment checksum, port comparison, and the replies to a SYN and to an HTTP request.
use vstd::prelude::*;
use vstd::utf8::valid_utf8;
use crate::bytes::{be16, read_array, u16_bytes, u32_bytes, lemma_join16, lemma_split16};
use crate::net::checksum::{
    pair_sum, checksum_from_sum, fold_complement, add_payload_words, lemma_pair_sum_bounds,
    lemma_checksum_verifies,
};
use crate::net::head_struct::{
    IPHeader, TCPHeader, EthernetHeader, field16, field32, flag_set, with_flag, TCP_HEADER_SIZE,
    IP_HEADER_SIZE, TCP_SYN, TCP_ACK,
};
use crate::net::ip::lemma_ip_checksum_verifies;
use crate::net::{Action, ActionView};
use crate::utf8_check::is_valid_utf8;
use crate::eth_driver::rtl8139_drivers::{RTL8139EthDriver, RX_BUFF_SIZE};

verus! {

/// The sum of the pseudo-header words: source and destination addresses,
/// protocol, and the transport length `len`.
pub open spec fn pseudo_sum(ip: IPHeader, len: int) -> int {
    be16(ip.src[0], ip.src[1]) + be16(ip.src[2], ip.src[3]) + be16(ip.dest[0], ip.dest[1])
        + be16(ip.dest[2], ip.dest[3]) + ip.protocol as int + len
}

/// Whether a two-byte network-order port field holds the port `b`.
pub fn compare_ports(a: [u8; 2], b: u16) -> (r: bool)
    ensures
        r == (field16(a) == b),
{
    proof {
        lemma_join16(a[0], a[1]);
    }
    (((a[0] as u16) << 8u16) | (a[1] as u16)) == b
}

impl TCPHeader {
    /// The word sum of a segment: the pseudo-header (with the length taken as the
    /// 20-byte header plus the payload), the header's ten words (the checksum field
    /// only when `check`), and the payload's words (an odd last byte left out).
    pub open spec fn word_sum(self, check: bool, ip: IPHeader, payload: Seq<u8>) -> int {
        pseudo_sum(ip, TCP_HEADER_SIZE + payload.len()) + pair_sum(self.bytes(), 10) - (if check {
            0
        } else {
            field16(self.checksum)
        }) + pair_sum(payload, payload.len() / 2)
    }

    /// The ten words of the header, one by one.
    pub proof fn lemma_words(self)
        ensures
            pair_sum(self.bytes(), 10) == field16(self.src_port) + field16(self.dest_port) + be16(
                self.seq_no[0],
                self.seq_no[1],
            ) + be16(self.seq_no[2], self.seq_no[3]) + be16(self.ack_no[0], self.ack_no[1])
                + be16(self.ack_no[2], self.ack_no[3]) + be16(self.data_offset, self.flags)
                + field16(self.win_size) + field16(self.checksum) + field16(self.urg_ptr),
    {
        reveal_with_fuel(pair_sum, 11);
        let b = self.bytes();
        assert(b[0] == self.src_port[0] && b[1] == self.src_port[1]);
        assert(b[2] == self.dest_port[0] && b[3] == self.dest_port[1]);
        assert(b[4] == self.seq_no[0] && b[5] == self.seq_no[1]);
        assert(b[6] == self.seq_no[2] && b[7] == self.seq_no[3]);
        assert(b[8] == self.ack_no[0] && b[9] == self.ack_no[1]);
        assert(b[10] == self.ack_no[2] && b[11] == self.ack_no[3]);
        assert(b[12] == self.data_offset && b[13] == self.flags);
        assert(b[14] == self.win_size[0] && b[15] == self.win_size[1]);
        assert(b[16] == self.checksum[0] && b[17] == self.checksum[1]);
        assert(b[18] == self.urg_ptr[0] && b[19] == self.urg_ptr[1]);
    }

    /// The TCP checksum of this header, sent in `ip_header`, carrying `payload`
    /// (see `word_sum`).  The sum must fit in 32 bits.
    pub fn calc_checksum(&self, check: bool, ip_header: &IPHeader, payload: &[u8]) -> (r: u16)
        requires
            payload@.len() + TCP_HEADER_SIZE <= u32::MAX,
            self.word_sum(check, *ip_header, payload@) < 0x1_0000_0000,
        ensures
            r == checksum_from_sum(self.word_sum(check, *ip_header, payload@)),
    {
        proof {
            self.lemma_words();
            lemma_pair_sum_bounds(payload@, payload@.len() / 2);
            lemma_join16(ip_header.src[0], ip_header.src[1]);
            lemma_join16(ip_header.src[2], ip_header.src[3]);
            lemma_join16(ip_header.dest[0], ip_header.dest[1]);
            lemma_join16(ip_header.dest[2], ip_header.dest[3]);
            lemma_join16(self.src_port[0], self.src_port[1]);
            lemma_join16(self.dest_port[0], self.dest_port[1]);
            lemma_join16(self.seq_no[0], self.seq_no[1]);
            lemma_join16(self.seq_no[2], self.seq_no[3]);
            lemma_join16(self.ack_no[0], self.ack_no[1]);
            lemma_join16(self.ack_no[2], self.ack_no[3]);
            lemma_join16(self.data_offset, self.flags);
            lemma_join16(self.win_size[0], self.win_size[1]);
            lemma_join16(self.checksum[0], self.checksum[1]);
            lemma_join16(self.urg_ptr[0], self.urg_ptr[1]);
        }
        let mut sum: u32 = 0;
        // pseudo IP header
        sum = sum + (((ip_header.src[0] as u32) << 8u32) | (ip_header.src[1] as u32));
        sum = sum + (((ip_header.src[2] as u32) << 8u32) | (ip_header.src[3] as u32));
        sum = sum + (((ip_header.dest[0] as u32) << 8u32) | (ip_header.dest[1] as u32));
        sum = sum + (((ip_header.dest[2] as u32) << 8u32) | (ip_header.dest[3] as u32));
        sum = sum + ip_header.protocol as u32;
        sum = sum + (TCPHeader::size_of() as u32 + payload.len() as u32);
        // the header
        sum = sum + (((self.src_port[0] as u32) << 8u32) | (self.src_port[1] as u32));
        sum = sum + (((self.dest_port[0] as u32) << 8u32) | (self.dest_port[1] as u32));
        sum = sum + (((self.seq_no[0] as u32) << 8u32) | (self.seq_no[1] as u32));
        sum = sum + (((self.seq_no[2] as u32) << 8u32) | (self.seq_no[3] as u32));
        sum = sum + (((self.ack_no[0] as u32) << 8u32) | (self.ack_no[1] as u32));
        sum = sum + (((self.ack_no[2] as u32) << 8u32) | (self.ack_no[3] as u32));
        sum = sum + (((self.data_offset as u32) << 8u32) | (self.flags as u32));
        sum = sum + (((self.win_size[0] as u32) << 8u32) | (self.win_size[1] as u32));
        if check {
            sum = sum + (((self.checksum[0] as u32) << 8u32) | (self.checksum[1] as u32));
        }
        sum = sum + (((self.urg_ptr[0] as u32) << 8u32) | (self.urg_ptr[1] as u32));
        // the payload
        sum = add_payload_words(sum, payload);
        fold_complement(sum)
    }
}

/// A segment whose checksum field holds the checksum computed with the field
/// left out verifies: the checksum over every word, the field included, is zero.
pub proof fn lemma_tcp_checksum_verifies(h: TCPHeader, ip: IPHeader, payload: Seq<u8>)
    requires
        h.word_sum(false, ip, payload) + 65535 < 0x1_0000_0000,
    ensures
        0 <= checksum_from_sum(h.word_sum(false, ip, payload)) <= 65535,
        ({
            let h2 = TCPHeader {
                checksum: u16_bytes(checksum_from_sum(h.word_sum(false, ip, payload)) as u16),
                ..h
            };
            checksum_from_sum(h2.word_sum(true, ip, payload)) == 0
        }),
{
    h.lemma_words();
    lemma_pair_sum_bounds(payload, payload.len() / 2);
    let s = h.word_sum(false, ip, payload);
    lemma_checksum_verifies(s);
    let c = checksum_from_sum(s) as u16;
    lemma_split16(c);
    let h2 = TCPHeader { checksum: u16_bytes(c), ..h };
    h2.lemma_words();
    assert(h2.word_sum(true, ip, payload) == s + c);
}


/// The HTTP response the station serves, in ASCII:
/// `HTTP/1.1 200 OK\r\nContent-Type: text/html; charset=UTF-8\r\n\n<html>CSNEL IS GOOd & NICE</html>\r\n\n`.
pub open spec fn http_response() -> Seq<u8> {
    seq![72u8, 84, 84, 80, 47, 49, 46, 49, 32, 50, 48, 48, 32, 79, 75, 13, 10, 67, 111, 110, 116, 101, 110, 116, 45, 84, 121, 112, 101, 58, 32, 116, 101, 120, 116, 47, 104, 116, 109, 108, 59, 32, 99, 104, 97, 114, 115, 101, 116, 61, 85, 84, 70, 45, 56, 13, 10, 10, 60, 104, 116, 109, 108, 62, 67, 83, 78, 69, 76, 32, 73, 83, 32, 71, 79, 79, 100, 32, 38, 32, 78, 73, 67, 69, 60, 47, 104, 116, 109, 108, 62, 13, 10, 10]
}

/// The bytes of the HTTP response the station serves.
pub fn temp_http_response() -> (r: Vec<u8>)
    ensures
        r@ == http_response(),
{
    let r: Vec<u8> = vec![72u8, 84, 84, 80, 47, 49, 46, 49, 32, 50, 48, 48, 32, 79, 75, 13, 10, 67, 111, 110, 116, 101, 110, 116, 45, 84, 121, 112, 101, 58, 32, 116, 101, 120, 116, 47, 104, 116, 109, 108, 59, 32, 99, 104, 97, 114, 115, 101, 116, 61, 85, 84, 70, 45, 56, 13, 10, 10, 60, 104, 116, 109, 108, 62, 67, 83, 78, 69, 76, 32, 73, 83, 32, 71, 79, 79, 100, 32, 38, 32, 78, 73, 67, 69, 60, 47, 104, 116, 109, 108, 62, 13, 10, 10];
    assert(r@ =~= http_response());
    r
}

/// The start of an HTTP request for a document: `GET /`.
pub open spec fn get_request_prefix() -> Seq<u8> {
    seq![71u8, 69, 84, 32, 47]
}

/// The sequence number the station answers with: the peer's plus 89809.
pub open spec fn reply_seq(tcp: TCPHeader) -> int {
    field32(tcp.seq_no) + 89809
}

/// The headers of the station's answer to the segment `eth`/`ip`/`tcp`, carrying
/// `payload`: the frame and the packet go back where they came from, the IP length
/// is 40 plus the payload and the IP checksum is filled in; the ports are swapped;
/// the sequence number is the peer's plus 89809 and the acknowledgement number the
/// peer's plus one; ACK is set (and SYN too when `syn`); the TCP checksum is filled in.
pub open spec fn reply_headers(
    eth: EthernetHeader,
    ip: IPHeader,
    tcp: TCPHeader,
    payload: Seq<u8>,
    syn: bool,
) -> (EthernetHeader, IPHeader, TCPHeader) {
    let e = EthernetHeader { src: eth.dest, dest: eth.src, ..eth };
    let i0 = IPHeader {
        src: ip.dest,
        dest: ip.src,
        total_len: u16_bytes((IP_HEADER_SIZE + TCP_HEADER_SIZE + payload.len()) as u16),
        ..ip
    };
    let i1 = IPHeader { checksum: u16_bytes(checksum_from_sum(i0.word_sum(false)) as u16), ..i0 };
    let flags = if syn {
        with_flag(with_flag(tcp.flags, TCP_SYN, true), TCP_ACK, true)
    } else {
        with_flag(tcp.flags, TCP_ACK, true)
    };
    let t0 = TCPHeader {
        src_port: tcp.dest_port,
        dest_port: tcp.src_port,
        seq_no: u32_bytes(reply_seq(tcp) as u32),
        ack_no: u32_bytes((field32(tcp.seq_no) + 1) as u32),
        flags: flags,
        ..tcp
    };
    let t1 = TCPHeader {
        checksum: u16_bytes(checksum_from_sum(t0.word_sum(false, i1, payload)) as u16),
        ..t0
    };
    (e, i1, t1)
}

/// The station's answers pass a receiver's checks: the IP header checksum and the
/// TCP checksum over the answer, each summed with its field, give zero.
pub proof fn lemma_reply_checksums_verify(
    eth: EthernetHeader,
    ip: IPHeader,
    tcp: TCPHeader,
    payload: Seq<u8>,
    syn: bool,
)
    requires
        payload.len() <= 800,
    ensures
        ({
            let (e, i, t) = reply_headers(eth, ip, tcp, payload, syn);
            &&& checksum_from_sum(i.word_sum(true)) == 0
            &&& checksum_from_sum(t.word_sum(true, i, payload)) == 0
        }),
{
    let (e, i, t) = reply_headers(eth, ip, tcp, payload, syn);
    let i0 = IPHeader {
        src: ip.dest,
        dest: ip.src,
        total_len: u16_bytes((IP_HEADER_SIZE + TCP_HEADER_SIZE + payload.len()) as u16),
        ..ip
    };
    lemma_ip_checksum_verifies(i0);
    let t0 = TCPHeader { checksum: tcp.checksum, ..t };
    t0.lemma_words();
    lemma_pair_sum_bounds(payload, payload.len() / 2);
    lemma_tcp_checksum_verifies(t0, i, payload);
    assert(TCPHeader { checksum: t.checksum, ..t0 } == t);
}

/// The frame of the station's answer: its headers followed by the payload.
pub open spec fn reply_frame(
    eth: EthernetHeader,
    ip: IPHeader,
    tcp: TCPHeader,
    payload: Seq<u8>,
    syn: bool,
) -> Seq<u8> {
    let (e, i, t) = reply_headers(eth, ip, tcp, payload, syn);
    e.bytes() + i.bytes() + t.bytes() + payload
}

/// What the station's answer carries, read back from its frame: the frame and
/// the packet go back where they came from; the IP length is 40 plus the payload;
/// the ports are swapped; the sequence number is the peer's plus 89809 and the
/// acknowledgement number the peer's plus one; the flags are the peer's with ACK
/// added (and SYN too when `syn`); both checksums verify; the payload follows the
/// headers unchanged.
pub proof fn lemma_reply_frame_fields(
    eth: EthernetHeader,
    ip: IPHeader,
    tcp: TCPHeader,
    payload: Seq<u8>,
    syn: bool,
)
    requires
        payload.len() <= 800,
        reply_seq(tcp) <= u32::MAX,
    ensures
        ({
            let f = reply_frame(eth, ip, tcp, payload, syn);
            let e = EthernetHeader::parse(f.subrange(0, 14));
            let i = IPHeader::parse(f.subrange(14, 34));
            let t = TCPHeader::parse(f.subrange(34, 54));
            &&& f.len() == 54 + payload.len()
            &&& e.src == eth.dest
            &&& e.dest == eth.src
            &&& e.eth_type == eth.eth_type
            &&& i.src == ip.dest
            &&& i.dest == ip.src
            &&& i.protocol == ip.protocol
            &&& field16(i.total_len) == 40 + payload.len()
            &&& checksum_from_sum(i.word_sum(true)) == 0
            &&& t.src_port == tcp.dest_port
            &&& t.dest_port == tcp.src_port
            &&& field32(t.seq_no) == field32(tcp.seq_no) + 89809
            &&& field32(t.ack_no) == field32(tcp.seq_no) + 1
            &&& t.data_offset == tcp.data_offset
            &&& t.flags == (if syn { tcp.flags | 0x12u8 } else { tcp.flags | 0x10u8 })
            &&& checksum_from_sum(t.word_sum(true, i, payload)) == 0
            &&& f.subrange(54, f.len() as int) == payload
        }),
{
    let (e, i, t) = reply_headers(eth, ip, tcp, payload, syn);
    let f = reply_frame(eth, ip, tcp, payload, syn);
    e.lemma_bytes_len();
    i.lemma_bytes_len();
    t.lemma_bytes_len();
    assert(f.subrange(0, 14) =~= e.bytes());
    assert(f.subrange(14, 34) =~= i.bytes());
    assert(f.subrange(34, 54) =~= t.bytes());
    assert(f.subrange(54, f.len() as int) =~= payload);
    EthernetHeader::lemma_parse_bytes(e);
    IPHeader::lemma_parse_bytes(i);
    TCPHeader::lemma_parse_bytes(t);
    crate::net::head_struct::lemma_field16_roundtrip((IP_HEADER_SIZE + TCP_HEADER_SIZE + payload.len()) as u16);
    crate::net::head_struct::lemma_field32_roundtrip(reply_seq(tcp) as u32);
    crate::net::head_struct::lemma_field32_roundtrip((field32(tcp.seq_no) + 1) as u32);
    lemma_reply_checksums_verify(eth, ip, tcp, payload, syn);
    let fl = tcp.flags;
    assert((fl | 2u8) | 16u8 == fl | 0x12u8) by (bit_vector);
}

fn build_reply(
    eth_header: &EthernetHeader,
    ip_header: &IPHeader,
    tcp_header: &TCPHeader,
    payload: &[u8],
    syn: bool,
) -> (r: Vec<u8>)
    requires
        payload@.len() <= 800,
        reply_seq(*tcp_header) <= u32::MAX,
    ensures
        r@ == reply_frame(*eth_header, *ip_header, *tcp_header, payload@, syn),
{
    let ghost spec_reply = reply_headers(*eth_header, *ip_header, *tcp_header, payload@, syn);
    let mut e = *eth_header;
    e.src = eth_header.dest;
    e.dest = eth_header.src;

    let mut i = *ip_header;
    i.src = ip_header.dest;
    i.dest = ip_header.src;
    i.set_len(IPHeader::size_of() + TCPHeader::size_of() + payload.len() as u16);
    let ic = i.calc_checksum(false);
    proof {
        i.lemma_words();
    }
    i.set_checksum(ic);

    let mut t = *tcp_header;
    t.src_port = tcp_header.dest_port;
    t.dest_port = tcp_header.src_port;
    t.set_seq_no(tcp_header.get_seq_no() + 89809);
    t.set_ack_no(tcp_header.get_seq_no() + 1);
    if syn {
        t.set_syn(true);
    }
    t.set_ack(true);
    proof {
        t.lemma_words();
        lemma_pair_sum_bounds(t.bytes(), 10);
        lemma_pair_sum_bounds(payload@, payload@.len() / 2);
    }
    let tc = t.calc_checksum(false, &i, payload);
    t.set_checksum(tc);
    assert(e == spec_reply.0);
    assert(i == spec_reply.1);
    assert(t == spec_reply.2);

    let mut out: Vec<u8> = Vec::new();
    e.to_bytes(&mut out);
    i.to_bytes(&mut out);
    t.to_bytes(&mut out);
    let mut k: usize = 0;
    let ghost before = out@;
    while k < payload.len()
        invariant
            k <= payload@.len(),
            out@ == before + payload@.subrange(0, k as int),
        decreases payload@.len() - k,
    {
        out.push(payload[k]);
        k = k + 1;
        assert(out@ =~= before + payload@.subrange(0, k as int));
    }
    assert(payload@.subrange(0, payload@.len() as int) =~= payload@);
    assert(out@ =~= e.bytes() + i.bytes() + t.bytes() + payload@);
    out
}

/// Answers a SYN with a SYN-ACK that carries back the first `option_size` bytes
/// of `options`; a segment without SYN gets no answer.
pub fn tcp_opt_deal(
    eth_header: &EthernetHeader,
    ip_header: &IPHeader,
    tcp_header: &TCPHeader,
    options: &[u8; 40],
    option_size: u16,
) -> (r: Action)
    requires
        option_size <= 40,
        flag_set(tcp_header.flags, TCP_SYN) ==> reply_seq(*tcp_header) <= u32::MAX,
    ensures
        r@ == (if flag_set(tcp_header.flags, TCP_SYN) {
            ActionView::Send(
                reply_frame(
                    *eth_header,
                    *ip_header,
                    *tcp_header,
                    options@.subrange(0, option_size as int),
                    true,
                ),
            )
        } else {
            ActionView::Nothing
        }),
{
    if tcp_header.is_syn() {
        let opts = &options.as_slice()[0..option_size as usize];
        let frame = build_reply(eth_header, ip_header, tcp_header, opts, true);
        Action::Send(frame)
    } else {
        Action::Nothing
    }
}

/// A request for a document (`GET /`) on the accepted port is answered with the
/// HTTP response, and the station then halts: the answer goes back to the peer
/// with the ports swapped, acknowledges the request's sequence number plus one,
/// keeps the request's flags with ACK added (so SYN stays as the request had it),
/// and carries the response after its 54 bytes of headers, both checksums verifying.
pub proof fn lemma_http_request_answered(
    eth: EthernetHeader,
    ip: IPHeader,
    tcp: TCPHeader,
    tcp_packet: Seq<u8>,
    accept_port: u16,
)
    requires
        field16(tcp.dest_port) == accept_port,
        field16(ip.total_len) > 40,
        tcp_packet.len() >= 5,
        tcp_packet.subrange(0, 5) == seq![71u8, 69, 84, 32, 47],
        field32(tcp.seq_no) + 89809 <= u32::MAX,
    ensures
        tcp_deal_action(eth, ip, tcp, tcp_packet, accept_port) is SendAndHalt,
        ({
            let f = tcp_deal_action(eth, ip, tcp, tcp_packet, accept_port)->SendAndHalt_0;
            let e = EthernetHeader::parse(f.subrange(0, 14));
            let i = IPHeader::parse(f.subrange(14, 34));
            let t = TCPHeader::parse(f.subrange(34, 54));
            &&& f.len() == 54 + http_response().len()
            &&& e.src == eth.dest
            &&& e.dest == eth.src
            &&& i.src == ip.dest
            &&& i.dest == ip.src
            &&& field16(i.total_len) == 40 + http_response().len()
            &&& checksum_from_sum(i.word_sum(true)) == 0
            &&& t.src_port == tcp.dest_port
            &&& t.dest_port == tcp.src_port
            &&& field32(t.seq_no) == field32(tcp.seq_no) + 89809
            &&& field32(t.ack_no) == field32(tcp.seq_no) + 1
            &&& t.flags == tcp.flags | 0x10u8
            &&& flag_set(t.flags, TCP_SYN) == flag_set(tcp.flags, TCP_SYN)
            &&& checksum_from_sum(t.word_sum(true, i, http_response())) == 0
            &&& f.subrange(54, f.len() as int) == http_response()
        }),
{
    assert(get_request_prefix() =~= seq![71u8, 69, 84, 32, 47]);
    assert(http_response().len() == 94);
    lemma_reply_frame_fields(eth, ip, tcp, http_response(), false);
    let fl = tcp.flags;
    assert(((fl | 0x10u8) & 2u8 != 0) == (fl & 2u8 != 0)) by (bit_vector);
}

/// What `tcp_deal` does with the segments it does not answer: one for another
/// port, or without payload, is left alone and the read offset stays; one with a
/// payload for the accepted port that does not start with `GET /` halts the
/// station unanswered; whenever a payload for the accepted port is read, the read
/// offset moves by the IP length less the 40 bytes of headers.
pub proof fn lemma_tcp_deal_outcomes(
    eth: EthernetHeader,
    ip: IPHeader,
    tcp: TCPHeader,
    tcp_packet: Seq<u8>,
    accept_port: u16,
)
    requires
        tcp_packet.len() >= 5,
    ensures
        field16(tcp.dest_port) != accept_port ==> {
            &&& tcp_deal_action(eth, ip, tcp, tcp_packet, accept_port) == ActionView::Nothing
            &&& tcp_deal_consumed(ip, tcp, accept_port) == 0
        },
        field16(ip.total_len) == 40 ==> {
            &&& tcp_deal_action(eth, ip, tcp, tcp_packet, accept_port) == ActionView::Nothing
            &&& tcp_deal_consumed(ip, tcp, accept_port) == 0
        },
        field16(tcp.dest_port) == accept_port && field16(ip.total_len) > 40 ==> {
            &&& tcp_deal_consumed(ip, tcp, accept_port) == field16(ip.total_len) - 40
            &&& tcp_packet.subrange(0, 5) != seq![71u8, 69, 84, 32, 47] ==> tcp_deal_action(
                eth,
                ip,
                tcp,
                tcp_packet,
                accept_port,
            ) == ActionView::Halt
        },
{
    assert(get_request_prefix() =~= seq![71u8, 69, 84, 32, 47]);
}

/// How far `tcp_deal` moves the read offset: past the payload, when the segment
/// is for `accept_port` and carries one.
pub open spec fn tcp_deal_consumed(ip: IPHeader, tcp: TCPHeader, accept_port: u16) -> int {
    let pack_size = field16(ip.total_len) - 40;
    if field16(tcp.dest_port) == accept_port && pack_size > 0 {
        pack_size
    } else {
        0
    }
}

/// Whether handling a segment with `tcp_deal`, with the read offset at `offset`,
/// runs to its end: when the segment is for `accept_port`, the IP length covers
/// both headers; when it carries a payload, moving the read offset past it stays
/// within 16 bits and its first five bytes are UTF-8; when those read `GET /`, the
/// payload fits the 800-byte window and is UTF-8, and the answer's sequence number
/// fits 32 bits.
pub open spec fn tcp_deal_defined(
    ip: IPHeader,
    tcp: TCPHeader,
    tcp_packet: Seq<u8>,
    accept_port: u16,
    offset: int,
) -> bool {
    field16(tcp.dest_port) == accept_port ==> {
        let pack_size = field16(ip.total_len) - 40;
        &&& pack_size >= 0
        &&& pack_size > 0 ==> offset + pack_size <= u16::MAX
        &&& pack_size > 0 ==> valid_utf8(tcp_packet.subrange(0, 5))
        &&& (pack_size > 0 && tcp_packet.subrange(0, 5) == get_request_prefix()) ==> {
            &&& pack_size <= 800
            &&& valid_utf8(tcp_packet.subrange(0, pack_size))
            &&& reply_seq(tcp) <= u32::MAX
        }
    }
}

/// What a segment without SYN asks for: nothing unless it is for `accept_port`
/// and carries a payload; then, if the payload starts with `GET /`, the HTTP
/// response is sent, and in either case the station halts.
pub open spec fn tcp_deal_action(
    eth: EthernetHeader,
    ip: IPHeader,
    tcp: TCPHeader,
    tcp_packet: Seq<u8>,
    accept_port: u16,
) -> ActionView {
    if field16(tcp.dest_port) != accept_port {
        ActionView::Nothing
    } else if field16(ip.total_len) - 40 == 0 {
        ActionView::Nothing
    } else if tcp_packet.subrange(0, 5) == get_request_prefix() {
        ActionView::SendAndHalt(reply_frame(eth, ip, tcp, http_response(), false))
    } else {
        ActionView::Halt
    }
}

/// Handles a segment without SYN whose payload starts at the card's read offset,
/// and moves the read offset past the payload (see `tcp_deal_consumed`).
pub fn tcp_deal(
    eth_header: &EthernetHeader,
    ip_header: &IPHeader,
    tcp_header: &TCPHeader,
    eth_dev: &mut RTL8139EthDriver,
    accept_port: u16,
) -> (r: Action)
    requires
        old(eth_dev).my_rx_ptr_offset + 800 <= RX_BUFF_SIZE,
        tcp_deal_defined(
            *ip_header,
            *tcp_header,
            old(eth_dev).rx_rest().subrange(0, 800),
            accept_port,
            old(eth_dev).my_rx_ptr_offset as int,
        ),
    ensures
        r@ == tcp_deal_action(
            *eth_header,
            *ip_header,
            *tcp_header,
            old(eth_dev).rx_rest().subrange(0, 800),
            accept_port,
        ),
        *final(eth_dev) == old(eth_dev).with_offset(
            old(eth_dev).my_rx_ptr_offset + tcp_deal_consumed(*ip_header, *tcp_header, accept_port),
        ),
{
    if !compare_ports(tcp_header.dest_port, accept_port) {
        return Action::Nothing;
    }
    let pack_size = ip_header.get_len() - (IPHeader::size_of() + TCPHeader::size_of());
    if pack_size > 0 {
        let at = eth_dev.my_rx_ptr_offset as usize;
        let tcp_packet: [u8; 800] = read_array(eth_dev.rx_buffer.as_slice(), at);
        assert(tcp_packet@ =~= old(eth_dev).rx_rest().subrange(0, 800));
        eth_dev.my_rx_ptr_offset = eth_dev.my_rx_ptr_offset + pack_size;
        let is_get = tcp_packet[0] == 71 && tcp_packet[1] == 69 && tcp_packet[2] == 84
            && tcp_packet[3] == 32 && tcp_packet[4] == 47;
        proof {
            if is_get {
                assert(tcp_packet@.subrange(0, 5) =~= get_request_prefix());
            } else {
                assert(tcp_packet@.subrange(0, 5)[0] == tcp_packet@[0]);
                assert(tcp_packet@.subrange(0, 5)[1] == tcp_packet@[1]);
                assert(tcp_packet@.subrange(0, 5)[2] == tcp_packet@[2]);
                assert(tcp_packet@.subrange(0, 5)[3] == tcp_packet@[3]);
                assert(tcp_packet@.subrange(0, 5)[4] == tcp_packet@[4]);
            }
        }
        if is_get {
            let response = temp_http_response();
            let frame = build_reply(eth_header, ip_header, tcp_header, response.as_slice(), false);
            return Action::SendAndHalt(frame);
        }
        return Action::Halt;
    }
    Action::Nothing
}


/// How far `tcp_dispatch` moves the read offset: past the options of a SYN, or
/// as `tcp_deal` moves it.
pub open spec fn tcp_dispatch_consumed(
    ip: IPHeader,
    tcp: TCPHeader,
    accept_port: u16,
    ack_required: bool,
) -> int {
    let syn = flag_set(tcp.flags, TCP_SYN);
    let ack = flag_set(tcp.flags, TCP_ACK);
    let d = tcp.data_offset / 16;
    if syn && ack {
        0
    } else if syn {
        if d > 5 {
            (d - 5) * 4
        } else {
            0
        }
    } else if ack || !ack_required {
        tcp_deal_consumed(ip, tcp, accept_port)
    } else {
        0
    }
}

/// Whether handing a segment on with `tcp_dispatch`, with the read offset at
/// `offset`, runs to its end (`rest` is what follows the TCP header).
pub open spec fn tcp_dispatch_defined(
    ip: IPHeader,
    tcp: TCPHeader,
    rest: Seq<u8>,
    accept_port: u16,
    ack_required: bool,
    offset: int,
) -> bool {
    let syn = flag_set(tcp.flags, TCP_SYN);
    let ack = flag_set(tcp.flags, TCP_ACK);
    if syn && ack {
        true
    } else if syn {
        tcp.data_offset / 16 >= 5 ==> reply_seq(tcp) <= u32::MAX
    } else if ack || !ack_required {
        tcp_deal_defined(ip, tcp, rest.subrange(0, 800), accept_port, offset)
    } else {
        true
    }
}

/// What a received segment asks for (`rest` is what follows the TCP header): a
/// segment with both SYN and ACK is odd and left alone; a SYN is answered by
/// `tcp_opt_deal`, carrying back the options that follow the 20-byte header (none
/// when the data offset is 5, and the SYN is left alone when the offset is below 5);
/// a segment without SYN goes to `tcp_deal`, when it has ACK or `ack_required` is off.
pub open spec fn tcp_dispatch_action(
    eth: EthernetHeader,
    ip: IPHeader,
    tcp: TCPHeader,
    rest: Seq<u8>,
    accept_port: u16,
    ack_required: bool,
) -> ActionView {
    let syn = flag_set(tcp.flags, TCP_SYN);
    let ack = flag_set(tcp.flags, TCP_ACK);
    let d = tcp.data_offset / 16;
    if syn && ack {
        ActionView::Nothing
    } else if syn {
        if d > 5 {
            ActionView::Send(reply_frame(eth, ip, tcp, rest.subrange(0, (d - 5) * 4), true))
        } else if d == 5 {
            ActionView::Send(reply_frame(eth, ip, tcp, Seq::empty(), true))
        } else {
            ActionView::Nothing
        }
    } else if ack || !ack_required {
        tcp_deal_action(eth, ip, tcp, rest.subrange(0, 800), accept_port)
    } else {
        ActionView::Nothing
    }
}

/// A SYN without ACK, with a data offset of at least 5, is answered with a SYN-ACK
/// that carries back the options that followed its header: the answer goes back
/// to the peer with the ports swapped, acknowledges the SYN's sequence number plus
/// one, keeps the SYN's flags with ACK added, and its IP length counts the options.
pub proof fn lemma_syn_answered(
    eth: EthernetHeader,
    ip: IPHeader,
    tcp: TCPHeader,
    rest: Seq<u8>,
    accept_port: u16,
    ack_required: bool,
)
    requires
        tcp.flags & 2 != 0,
        tcp.flags & 16 == 0,
        tcp.data_offset >= 0x50,
        rest.len() >= 40,
        field32(tcp.seq_no) + 89809 <= u32::MAX,
    ensures
        ({
            let n = (tcp.data_offset / 16 - 5) * 4;
            &&& tcp_dispatch_action(eth, ip, tcp, rest, accept_port, ack_required) matches ActionView::Send(f)
            &&& f.len() == 54 + n
            &&& EthernetHeader::parse(f.subrange(0, 14)).dest == eth.src
            &&& IPHeader::parse(f.subrange(14, 34)).dest == ip.src
            &&& field16(IPHeader::parse(f.subrange(14, 34)).total_len) == 40 + n
            &&& TCPHeader::parse(f.subrange(34, 54)).src_port == tcp.dest_port
            &&& TCPHeader::parse(f.subrange(34, 54)).dest_port == tcp.src_port
            &&& field32(TCPHeader::parse(f.subrange(34, 54)).ack_no) == field32(tcp.seq_no) + 1
            &&& TCPHeader::parse(f.subrange(34, 54)).flags == tcp.flags | 0x10u8
            &&& f.subrange(54, f.len() as int) == rest.subrange(0, n)
        }),
{
    let d = tcp.data_offset / 16;
    let n = (d - 5) * 4;
    let fl = tcp.flags;
    assert((fl | 0x12u8) == (fl | 0x10u8)) by (bit_vector)
        requires
            fl & 2 != 0,
    ;
    assert(d <= 15);
    if d > 5 {
        lemma_reply_frame_fields(eth, ip, tcp, rest.subrange(0, n), true);
    } else {
        assert(rest.subrange(0, 0) =~= Seq::<u8>::empty());
        lemma_reply_frame_fields(eth, ip, tcp, Seq::empty(), true);
    }
}

/// Hands a received segment, whose TCP header the card's read offset has just
/// passed, on by its flags (see `tcp_dispatch_action`), moving the read offset
/// past what is read (see `tcp_dispatch_consumed`).
pub fn tcp_dispatch(
    eth_header: &EthernetHeader,
    ip_header: &IPHeader,
    tcp_header: &TCPHeader,
    eth_dev: &mut RTL8139EthDriver,
    accept_port: u16,
    ack_required: bool,
) -> (r: Action)
    requires
        old(eth_dev).my_rx_ptr_offset + 800 <= RX_BUFF_SIZE,
        tcp_dispatch_defined(
            *ip_header,
            *tcp_header,
            old(eth_dev).rx_rest(),
            accept_port,
            ack_required,
            old(eth_dev).my_rx_ptr_offset as int,
        ),
    ensures
        r@ == tcp_dispatch_action(
            *eth_header,
            *ip_header,
            *tcp_header,
            old(eth_dev).rx_rest(),
            accept_port,
            ack_required,
        ),
        *final(eth_dev) == old(eth_dev).with_offset(
            old(eth_dev).my_rx_ptr_offset + tcp_dispatch_consumed(
                *ip_header,
                *tcp_header,
                accept_port,
                ack_required,
            ),
        ),
{
    if tcp_header.is_ack() && tcp_header.is_syn() {
        Action::Nothing
    } else if tcp_header.is_syn() && !tcp_header.is_ack() {
        let d = tcp_header.get_data_off();
        if d > 5 {
            let option_size = (d as u16 - 5) * 4;
            let at = eth_dev.my_rx_ptr_offset as usize;
            let options: [u8; 40] = read_array(eth_dev.rx_buffer.as_slice(), at);
            assert(options@.subrange(0, option_size as int) =~= old(eth_dev).rx_rest().subrange(
                0,
                option_size as int,
            ));
            eth_dev.my_rx_ptr_offset = eth_dev.my_rx_ptr_offset + option_size;
            tcp_opt_deal(eth_header, ip_header, tcp_header, &options, option_size)
        } else if d == 5 {
            let options = [0u8; 40];
            assert(options@.subrange(0, 0) =~= Seq::<u8>::empty());
            tcp_opt_deal(eth_header, ip_header, tcp_header, &options, 0)
        } else {
            Action::Nothing
        }
    } else if !tcp_header.is_syn() && (tcp_header.is_ack() || !ack_required) {
        tcp_deal(eth_header, ip_header, tcp_header, eth_dev, accept_port)
    } else {
        Action::Nothing
    }
}


/// Whether an action halts the station.
pub open spec fn halts(a: ActionView) -> bool {
    a is Halt || a is SendAndHalt
}

/// Tells whether `tcp_deal` runs to its end on this segment, with the read offset
/// at `offset` (see `tcp_deal_defined`).
pub fn tcp_deal_is_defined(
    ip_header: &IPHeader,
    tcp_header: &TCPHeader,
    tcp_packet: &[u8],
    offset: u16,
    accept_port: u16,
) -> (r: bool)
    requires
        tcp_packet@.len() >= 800,
    ensures
        r == tcp_deal_defined(
            *ip_header,
            *tcp_header,
            tcp_packet@.subrange(0, 800),
            accept_port,
            offset as int,
        ),
{
    let ghost w = tcp_packet@.subrange(0, 800);
    if !compare_ports(tcp_header.dest_port, accept_port) {
        return true;
    }
    let len = ip_header.get_len();
    if len < 40 {
        return false;
    }
    let pack_size = len - 40;
    if pack_size == 0 {
        return true;
    }
    if offset as u32 + pack_size as u32 > 0xFFFF {
        return false;
    }
    let first = &tcp_packet[0..5];
    assert(first@ =~= w.subrange(0, 5));
    if !is_valid_utf8(first) {
        return false;
    }
    let is_get = tcp_packet[0] == 71 && tcp_packet[1] == 69 && tcp_packet[2] == 84
        && tcp_packet[3] == 32 && tcp_packet[4] == 47;
    proof {
        if is_get {
            assert(w.subrange(0, 5) =~= get_request_prefix());
        } else {
            assert(w.subrange(0, 5)[0] == w[0]);
            assert(w.subrange(0, 5)[1] == w[1]);
            assert(w.subrange(0, 5)[2] == w[2]);
            assert(w.subrange(0, 5)[3] == w[3]);
            assert(w.subrange(0, 5)[4] == w[4]);
        }
    }
    if !is_get {
        return true;
    }
    if pack_size > 800 {
        return false;
    }
    let payload = &tcp_packet[0..pack_size as usize];
    assert(payload@ =~= w.subrange(0, pack_size as int));
    is_valid_utf8(payload) && tcp_header.get_seq_no() <= u32::MAX - 89809
}

/// Tells whether `tcp_dispatch` runs to its end, with the read offset at `offset`,
/// and whether what it asks for halts the station.
pub fn tcp_dispatch_is_defined(
    ip_header: &IPHeader,
    tcp_header: &TCPHeader,
    rest: &[u8],
    offset: u16,
    accept_port: u16,
    ack_required: bool,
) -> (r: (bool, bool))
    requires
        rest@.len() >= 800,
    ensures
        r.0 == tcp_dispatch_defined(
            *ip_header,
            *tcp_header,
            rest@,
            accept_port,
            ack_required,
            offset as int,
        ),
        forall|eth: EthernetHeader|
            r.1 == halts(tcp_dispatch_action(eth, *ip_header, *tcp_header, rest@, accept_port, ack_required)),
{
    if tcp_header.is_ack() && tcp_header.is_syn() {
        (true, false)
    } else if tcp_header.is_syn() {
        let d = tcp_header.get_data_off();
        (d < 5 || tcp_header.get_seq_no() <= u32::MAX - 89809, false)
    } else if tcp_header.is_ack() || !ack_required {
        let defined = tcp_deal_is_defined(ip_header, tcp_header, rest, offset, accept_port);
        let halting = compare_ports(tcp_header.dest_port, accept_port) && ip_header.get_len() != 40;
        (defined, halting)
    } else {
        (true, false)
    }
}

} // verus!
