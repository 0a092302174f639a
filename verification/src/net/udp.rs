//! UDP: the datagram checksum, port comparison, and which datagrams are passed on to DHCP.
use vstd::prelude::*;
use crate::bytes::{u16_bytes, lemma_join16, lemma_split16};
use crate::net::checksum::{
    pair_sum, checksum_from_sum, fold_complement, add_payload_words, lemma_pair_sum_bounds,
    lemma_checksum_verifies,
};
use crate::net::dhcp::{dhcp_deal, dhcp_deal_action, dhcp_deal_defined, dhcp_consumed};
use crate::eth_driver::rtl8139_drivers::{RTL8139EthDriver, RX_BUFF_SIZE};
use crate::net::head_struct::{DHCPHeader, EthernetHeader, IPHeader, UDPHeader, field16, UDP_HEADER_SIZE};
use crate::net::ip::NetConfig;
use crate::net::tcp::pseudo_sum;
use crate::net::{Action, ActionView};

verus! {

/// Whether a two-byte network-order port field holds the port `b`.
pub fn compare_ports(a: [u8; 2], b: u16) -> (r: bool)
    ensures
        r == (field16(a) == b),
{
    proof {
        lemma_join16(a[0], a[1]);
    }
    (((a[0] as u16) << 8u16) | (a[1] as u16)) == b
}

impl UDPHeader {
    /// The word sum of a datagram: the pseudo-header (with the length taken as the
    /// 8-byte header plus the payload), the header's four words (the checksum field
    /// only when `check`), and the payload's words (an odd last byte left out).
    pub open spec fn word_sum(self, check: bool, ip: IPHeader, payload: Seq<u8>) -> int {
        pseudo_sum(ip, UDP_HEADER_SIZE + payload.len()) + pair_sum(self.bytes(), 4) - (if check {
            0
        } else {
            field16(self.checksum)
        }) + pair_sum(payload, payload.len() / 2)
    }

    /// The four words of the header, one by one.
    pub proof fn lemma_words(self)
        ensures
            pair_sum(self.bytes(), 4) == field16(self.src_port) + field16(self.dest_port)
                + field16(self.len) + field16(self.checksum),
    {
        reveal_with_fuel(pair_sum, 5);
        let b = self.bytes();
        assert(b[0] == self.src_port[0] && b[1] == self.src_port[1]);
        assert(b[2] == self.dest_port[0] && b[3] == self.dest_port[1]);
        assert(b[4] == self.len[0] && b[5] == self.len[1]);
        assert(b[6] == self.checksum[0] && b[7] == self.checksum[1]);
    }

    /// The UDP checksum of this header, sent in `ip_header`, carrying `payload`
    /// (see `word_sum`).  The sum must fit in 32 bits.
    pub fn calc_checksum(&self, check: bool, ip_header: &IPHeader, payload: &[u8]) -> (r: u16)
        requires
            payload@.len() + UDP_HEADER_SIZE <= u32::MAX,
            self.word_sum(check, *ip_header, payload@) < 0x1_0000_0000,
        ensures
            r == checksum_from_sum(self.word_sum(check, *ip_header, payload@)),
    {
        proof {
            self.lemma_words();
            lemma_pair_sum_bounds(payload@, payload@.len() / 2);
            lemma_join16(ip_header.src[0], ip_header.src[1]);
            lemma_join16(ip_header.src[2], ip_header.src[3]);
            lemma_join16(ip_header.dest[0], ip_header.dest[1]);
            lemma_join16(ip_header.dest[2], ip_header.dest[3]);
            lemma_join16(self.src_port[0], self.src_port[1]);
            lemma_join16(self.dest_port[0], self.dest_port[1]);
            lemma_join16(self.len[0], self.len[1]);
            lemma_join16(self.checksum[0], self.checksum[1]);
        }
        let mut sum: u32 = 0;
        // pseudo IP header
        sum = sum + (((ip_header.src[0] as u32) << 8u32) | (ip_header.src[1] as u32));
        sum = sum + (((ip_header.src[2] as u32) << 8u32) | (ip_header.src[3] as u32));
        sum = sum + (((ip_header.dest[0] as u32) << 8u32) | (ip_header.dest[1] as u32));
        sum = sum + (((ip_header.dest[2] as u32) << 8u32) | (ip_header.dest[3] as u32));
        sum = sum + ip_header.protocol as u32;
        sum = sum + (UDPHeader::size_of() as u32 + payload.len() as u32);
        // the header
        sum = sum + (((self.src_port[0] as u32) << 8u32) | (self.src_port[1] as u32));
        sum = sum + (((self.dest_port[0] as u32) << 8u32) | (self.dest_port[1] as u32));
        sum = sum + (((self.len[0] as u32) << 8u32) | (self.len[1] as u32));
        if check {
            sum = sum + (((self.checksum[0] as u32) << 8u32) | (self.checksum[1] as u32));
        }
        // the payload
        sum = add_payload_words(sum, payload);
        fold_complement(sum)
    }
}

/// A datagram whose checksum field holds the checksum computed with the field
/// left out verifies: the checksum over every word, the field included, is zero.
pub proof fn lemma_udp_checksum_verifies(h: UDPHeader, ip: IPHeader, payload: Seq<u8>)
    requires
        h.word_sum(false, ip, payload) + 65535 < 0x1_0000_0000,
    ensures
        0 <= checksum_from_sum(h.word_sum(false, ip, payload)) <= 65535,
        ({
            let h2 = UDPHeader {
                checksum: u16_bytes(checksum_from_sum(h.word_sum(false, ip, payload)) as u16),
                ..h
            };
            checksum_from_sum(h2.word_sum(true, ip, payload)) == 0
        }),
{
    h.lemma_words();
    lemma_pair_sum_bounds(payload, payload.len() / 2);
    let s = h.word_sum(false, ip, payload);
    lemma_checksum_verifies(s);
    let c = checksum_from_sum(s) as u16;
    lemma_split16(c);
    let h2 = UDPHeader { checksum: u16_bytes(c), ..h };
    h2.lemma_words();
    assert(h2.word_sum(true, ip, payload) == s + c);
}


/// Whether a datagram comes from the DHCP server port (67) to the client port (68).
pub open spec fn is_dhcp_reply(udp: UDPHeader) -> bool {
    field16(udp.src_port) == 67 && field16(udp.dest_port) == 68
}

/// Whether `udp_deal` runs to its end on the bytes `rest` that follow the UDP header.
pub open spec fn udp_deal_defined(udp: UDPHeader, rest: Seq<u8>) -> bool {
    is_dhcp_reply(udp) ==> dhcp_deal_defined(rest.subrange(240, 243), rest.subrange(243, 293))
}

/// What a datagram asks for: a DHCP reply (its DHCP message, the first three option
/// bytes and the next fifty follow the UDP header) goes to DHCP; anything else is
/// left alone.
pub open spec fn udp_deal_action(
    eth: EthernetHeader,
    ip: IPHeader,
    udp: UDPHeader,
    rest: Seq<u8>,
    config: NetConfig,
) -> ActionView {
    if is_dhcp_reply(udp) {
        dhcp_deal_action(
            eth,
            ip,
            udp,
            DHCPHeader::parse(rest.subrange(0, 240)),
            rest.subrange(240, 243),
            rest.subrange(243, 293),
            config,
        )
    } else {
        ActionView::Nothing
    }
}

/// How far `udp_deal` moves the read offset: past the DHCP message and what
/// `dhcp_deal` reads, for a DHCP reply.
pub open spec fn udp_consumed(udp: UDPHeader, rest: Seq<u8>) -> int {
    if is_dhcp_reply(udp) {
        240 + dhcp_consumed(rest.subrange(240, 243), rest.subrange(243, 293))
    } else {
        0
    }
}

/// Handles a datagram whose UDP header the card's read offset has just passed
/// (see `udp_deal_action`), moving the read offset past what it reads (see
/// `udp_consumed`).
pub fn udp_deal(
    eth_header: &EthernetHeader,
    ip_header: &IPHeader,
    udp_header: &UDPHeader,
    eth_dev: &mut RTL8139EthDriver,
    config: &NetConfig,
) -> (r: Action)
    requires
        old(eth_dev).my_rx_ptr_offset + 293 <= RX_BUFF_SIZE,
        udp_deal_defined(*udp_header, old(eth_dev).rx_rest()),
    ensures
        r@ == udp_deal_action(*eth_header, *ip_header, *udp_header, old(eth_dev).rx_rest(), *config),
        *final(eth_dev) == old(eth_dev).with_offset(
            old(eth_dev).my_rx_ptr_offset + udp_consumed(*udp_header, old(eth_dev).rx_rest()),
        ),
{
    if compare_ports(udp_header.src_port, 67) && compare_ports(udp_header.dest_port, 68) {
        let ghost rest = old(eth_dev).rx_rest();
        let at = eth_dev.my_rx_ptr_offset as usize;
        let dhcp_header = DHCPHeader::from_bytes(eth_dev.rx_buffer.as_slice(), at);
        assert(rest.subrange(0, 240) =~= eth_dev.rx_buffer@.subrange(at as int, at + 240));
        eth_dev.my_rx_ptr_offset = eth_dev.my_rx_ptr_offset + 240;
        assert(eth_dev.rx_rest().subrange(0, 3) =~= rest.subrange(240, 243));
        assert(eth_dev.rx_rest().subrange(3, 53) =~= rest.subrange(243, 293));
        dhcp_deal(eth_header, ip_header, udp_header, &dhcp_header, eth_dev, config)
    } else {
        Action::Nothing
    }
}

} // verus!
