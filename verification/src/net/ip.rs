//! IPv4: the header checksum, address comparison and what a received IP packet asks for.
use vstd::prelude::*;
use crate::bytes::{be16, u16_bytes, lemma_join16, lemma_split16};
use crate::net::checksum::{pair_sum, checksum_from_sum, fold_complement, lemma_pair_sum_bounds, lemma_checksum_verifies};
use crate::net::head_struct::{IPHeader, EthernetHeader, TCPHeader, UDPHeader, field16};
use crate::net::tcp::{tcp_dispatch, tcp_dispatch_action, tcp_dispatch_consumed, tcp_dispatch_defined};
use crate::net::udp::{udp_deal, udp_deal_action, udp_consumed, udp_deal_defined};
use crate::eth_driver::rtl8139_drivers::{RTL8139EthDriver, RX_BUFF_SIZE};
use crate::net::{Action, ActionView};

verus! {

/// The station's IPv4 configuration, as DHCP hands it out.
#[derive(Copy, Clone)]
pub struct NetConfig {
    pub my_ip: [u8; 4],
    pub router_ip: [u8; 4],
    pub dhcp_server: [u8; 4],
    pub subnet_mask: [u8; 4],
    pub lease_time: [u8; 4],
}

impl NetConfig {
    /// The configuration before DHCP has run: every address is zero.
    pub fn new() -> (r: NetConfig)
        ensures
            r.my_ip@ == seq![0u8, 0, 0, 0],
            r.router_ip@ == seq![0u8, 0, 0, 0],
            r.dhcp_server@ == seq![0u8, 0, 0, 0],
            r.subnet_mask@ == seq![0u8, 0, 0, 0],
            r.lease_time@ == seq![0u8, 0, 0, 0],
    {
        let r = NetConfig {
            my_ip: [0u8; 4],
            router_ip: [0u8; 4],
            dhcp_server: [0u8; 4],
            subnet_mask: [0u8; 4],
            lease_time: [0u8; 4],
        };
        assert(r.my_ip@ =~= seq![0u8, 0, 0, 0]);
        r
    }
}

/// Whether two IPv4 addresses are the same.
pub fn compare_ip(a: [u8; 4], b: [u8; 4]) -> (r: bool)
    ensures
        r == (a == b),
{
    let r = a[0] == b[0] && a[1] == b[1] && a[2] == b[2] && a[3] == b[3];
    proof {
        if r {
            assert(a =~= b);
        }
    }
    r
}

impl IPHeader {
    /// The sum of the header's ten 16-bit words; the checksum field is counted
    /// only when `check` is set (as a receiver does), and left out otherwise (as
    /// a sender does before filling it in).
    pub open spec fn word_sum(self, check: bool) -> int {
        pair_sum(self.bytes(), 10) - (if check { 0 } else { field16(self.checksum) })
    }

    /// The ten words of the header, one by one.
    pub proof fn lemma_words(self)
        ensures
            pair_sum(self.bytes(), 10) == be16(self.ver_ihl, self.tos) + field16(self.total_len)
                + field16(self.id) + field16(self.flags_frag) + be16(self.ttl, self.protocol)
                + field16(self.checksum) + be16(self.src[0], self.src[1]) + be16(
                self.src[2],
                self.src[3],
            ) + be16(self.dest[0], self.dest[1]) + be16(self.dest[2], self.dest[3]),
            0 <= self.word_sum(false),
            self.word_sum(true) <= 10 * 65535,
    {
        reveal_with_fuel(pair_sum, 11);
        let b = self.bytes();
        assert(b[0] == self.ver_ihl && b[1] == self.tos);
        assert(b[2] == self.total_len[0] && b[3] == self.total_len[1]);
        assert(b[4] == self.id[0] && b[5] == self.id[1]);
        assert(b[6] == self.flags_frag[0] && b[7] == self.flags_frag[1]);
        assert(b[8] == self.ttl && b[9] == self.protocol);
        assert(b[10] == self.checksum[0] && b[11] == self.checksum[1]);
        assert(b[12] == self.src[0] && b[13] == self.src[1]);
        assert(b[14] == self.src[2] && b[15] == self.src[3]);
        assert(b[16] == self.dest[0] && b[17] == self.dest[1]);
        assert(b[18] == self.dest[2] && b[19] == self.dest[3]);
    }

    /// The Internet checksum of the header (see `word_sum`).
    pub fn calc_checksum(&self, check: bool) -> (r: u16)
        ensures
            r == checksum_from_sum(self.word_sum(check)),
    {
        proof {
            self.lemma_words();
            lemma_join16(self.ver_ihl, self.tos);
            lemma_join16(self.total_len[0], self.total_len[1]);
            lemma_join16(self.id[0], self.id[1]);
            lemma_join16(self.flags_frag[0], self.flags_frag[1]);
            lemma_join16(self.ttl, self.protocol);
            lemma_join16(self.checksum[0], self.checksum[1]);
            lemma_join16(self.src[0], self.src[1]);
            lemma_join16(self.src[2], self.src[3]);
            lemma_join16(self.dest[0], self.dest[1]);
            lemma_join16(self.dest[2], self.dest[3]);
        }
        let mut sum: u32 = 0;
        sum = sum + (((self.ver_ihl as u32) << 8u32) | (self.tos as u32));
        sum = sum + (((self.total_len[0] as u32) << 8u32) | (self.total_len[1] as u32));
        sum = sum + (((self.id[0] as u32) << 8u32) | (self.id[1] as u32));
        sum = sum + (((self.flags_frag[0] as u32) << 8u32) | (self.flags_frag[1] as u32));
        sum = sum + (((self.ttl as u32) << 8u32) | (self.protocol as u32));
        if check {
            sum = sum + (((self.checksum[0] as u32) << 8u32) | (self.checksum[1] as u32));
        }
        sum = sum + (((self.src[0] as u32) << 8u32) | (self.src[1] as u32));
        sum = sum + (((self.src[2] as u32) << 8u32) | (self.src[3] as u32));
        sum = sum + (((self.dest[0] as u32) << 8u32) | (self.dest[1] as u32));
        sum = sum + (((self.dest[2] as u32) << 8u32) | (self.dest[3] as u32));
        fold_complement(sum)
    }
}

/// A header whose checksum field holds the checksum computed with the field left
/// out verifies: computing the checksum over every word, the field included, gives zero.
pub proof fn lemma_ip_checksum_verifies(h: IPHeader)
    ensures
        0 <= checksum_from_sum(h.word_sum(false)) <= 65535,
        ({
            let h2 = IPHeader {
                checksum: u16_bytes(checksum_from_sum(h.word_sum(false)) as u16),
                ..h
            };
            checksum_from_sum(h2.word_sum(true)) == 0
        }),
{
    h.lemma_words();
    let s = h.word_sum(false);
    lemma_checksum_verifies(s);
    let c = checksum_from_sum(s) as u16;
    lemma_split16(c);
    let h2 = IPHeader { checksum: u16_bytes(c), ..h };
    h2.lemma_words();
    assert(h2.word_sum(true) == s + c);
}


/// Whether a packet is for this station: sent to the broadcast address or to its own address.
pub open spec fn for_station(ip: IPHeader, config: NetConfig) -> bool {
    ip.dest == [0xFFu8, 0xFF, 0xFF, 0xFF] || ip.dest == config.my_ip
}

/// Whether `ip_deal`, with the read offset at `offset`, runs to its end (`rest` is
/// what follows the IP header).
pub open spec fn ip_deal_defined(
    ip: IPHeader,
    rest: Seq<u8>,
    config: NetConfig,
    accept_port: u16,
    offset: int,
) -> bool {
    for_station(ip, config) ==> if ip.protocol == 17 {
        udp_deal_defined(UDPHeader::parse(rest.subrange(0, 8)), rest.subrange(8, rest.len() as int))
    } else if ip.protocol == 6 {
        tcp_dispatch_defined(
            ip,
            TCPHeader::parse(rest.subrange(0, 20)),
            rest.subrange(20, rest.len() as int),
            accept_port,
            true,
            offset + 20,
        )
    } else {
        true
    }
}

/// What an IP packet asks for (`rest` is what follows the IP header): a packet
/// not for this station is left alone; UDP goes to `udp_deal`; TCP goes to
/// `tcp_dispatch`, where a segment without SYN is handled only when it has ACK;
/// other protocols are left alone.
pub open spec fn ip_deal_action(
    ip: IPHeader,
    eth: EthernetHeader,
    rest: Seq<u8>,
    config: NetConfig,
    accept_port: u16,
) -> ActionView {
    if !for_station(ip, config) {
        ActionView::Nothing
    } else if ip.protocol == 17 {
        udp_deal_action(
            eth,
            ip,
            UDPHeader::parse(rest.subrange(0, 8)),
            rest.subrange(8, rest.len() as int),
            config,
        )
    } else if ip.protocol == 6 {
        tcp_dispatch_action(
            eth,
            ip,
            TCPHeader::parse(rest.subrange(0, 20)),
            rest.subrange(20, rest.len() as int),
            accept_port,
            true,
        )
    } else {
        ActionView::Nothing
    }
}

/// How far `ip_deal` moves the read offset (`rest` is what follows the IP
/// header): past the 8-byte UDP header and what `udp_deal` reads, or past the
/// 20-byte TCP header and what `tcp_dispatch` reads; not at all for a packet not
/// for this station or of another protocol.
pub open spec fn ip_deal_consumed(ip: IPHeader, rest: Seq<u8>, config: NetConfig, accept_port: u16) -> int {
    if !for_station(ip, config) {
        0
    } else if ip.protocol == 17 {
        8 + udp_consumed(UDPHeader::parse(rest.subrange(0, 8)), rest.subrange(8, rest.len() as int))
    } else if ip.protocol == 6 {
        20 + tcp_dispatch_consumed(ip, TCPHeader::parse(rest.subrange(0, 20)), accept_port, true)
    } else {
        0
    }
}

/// A packet addressed neither to the station nor to the broadcast address is left
/// alone, and the read offset does not move.
pub proof fn lemma_ip_deal_destination(
    ip: IPHeader,
    eth: EthernetHeader,
    rest: Seq<u8>,
    config: NetConfig,
    accept_port: u16,
)
    ensures
        ip.dest != config.my_ip && ip.dest != [0xFFu8, 0xFF, 0xFF, 0xFF] ==> {
            &&& ip_deal_action(ip, eth, rest, config, accept_port) == ActionView::Nothing
            &&& ip_deal_consumed(ip, rest, config, accept_port) == 0
        },
{
}

/// Handles an IP packet whose header the card's read offset has just passed (see
/// `ip_deal_action`), moving the read offset past what it reads (see
/// `ip_deal_consumed`).
pub fn ip_deal(
    ip_header: &IPHeader,
    eth_header: &EthernetHeader,
    eth_dev: &mut RTL8139EthDriver,
    config: &NetConfig,
    accept_port: u16,
) -> (r: Action)
    requires
        old(eth_dev).my_rx_ptr_offset + 820 <= RX_BUFF_SIZE,
        ip_deal_defined(
            *ip_header,
            old(eth_dev).rx_rest(),
            *config,
            accept_port,
            old(eth_dev).my_rx_ptr_offset as int,
        ),
    ensures
        r@ == ip_deal_action(*ip_header, *eth_header, old(eth_dev).rx_rest(), *config, accept_port),
        *final(eth_dev) == old(eth_dev).with_offset(
            old(eth_dev).my_rx_ptr_offset + ip_deal_consumed(
                *ip_header,
                old(eth_dev).rx_rest(),
                *config,
                accept_port,
            ),
        ),
{
    let broadcast = [0xFFu8; 4];
    assert(broadcast =~= [0xFFu8, 0xFF, 0xFF, 0xFF]);
    if compare_ip(ip_header.dest, broadcast) {
        // might be DHCP
    } else if !compare_ip(ip_header.dest, config.my_ip) {
        return Action::Nothing;
    }
    let ghost rest = old(eth_dev).rx_rest();
    let at = eth_dev.my_rx_ptr_offset as usize;
    if ip_header.is_udp() {
        let udp_header = UDPHeader::from_bytes(eth_dev.rx_buffer.as_slice(), at);
        assert(rest.subrange(0, 8) =~= eth_dev.rx_buffer@.subrange(at as int, at + 8));
        eth_dev.my_rx_ptr_offset = eth_dev.my_rx_ptr_offset + 8;
        assert(eth_dev.rx_rest() =~= rest.subrange(8, rest.len() as int));
        udp_deal(eth_header, ip_header, &udp_header, eth_dev, config)
    } else if ip_header.is_tcp() {
        let tcp_header = TCPHeader::from_bytes(eth_dev.rx_buffer.as_slice(), at);
        assert(rest.subrange(0, 20) =~= eth_dev.rx_buffer@.subrange(at as int, at + 20));
        eth_dev.my_rx_ptr_offset = eth_dev.my_rx_ptr_offset + 20;
        assert(eth_dev.rx_rest() =~= rest.subrange(20, rest.len() as int));
        tcp_dispatch(eth_header, ip_header, &tcp_header, eth_dev, accept_port, true)
    } else {
        Action::Nothing
    }
}

} // verus!
